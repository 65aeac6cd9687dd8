//! Working on a session: it is claimed, its changes are pushed after a quiet period, and the
//! claim is given back at the end.

use crate::ask;
use crate::exchange::{Change, Log, Reply, Request, RequestView, Run, Stop};
use crate::session;
use crate::status;
use crate::sync;
use crate::text;
use crate::workflow;
use vstd::prelude::*;

verus! {

/// How long changes have to stay quiet before they are pushed, in seconds.
pub const WORK_PUSH_DEBOUNCE: u64 = 300;

/// The moment that lies the quiet period after `now`, in nanoseconds.
pub open spec fn quiet_after(now: u64) -> u128 {
    (now + WORK_PUSH_DEBOUNCE * 1_000_000_000) as u128
}

fn deadline_after(now: u64) -> (deadline: u128)
    ensures
        deadline == quiet_after(now),
        deadline == now + WORK_PUSH_DEBOUNCE * 1_000_000_000,
{
    now as u128 + WORK_PUSH_DEBOUNCE as u128 * 1_000_000_000
}

/// Whether a path, given as the list of its components, lies in a git directory.
pub open spec fn is_git_internal(components: Seq<Seq<char>>) -> bool {
    components.contains(".git"@)
}

pub fn is_git_internal_path(components: &Vec<String>) -> (result: bool)
    ensures
        result == is_git_internal(components.deep_view()),
{
    let mut i: usize = 0;
    while i < components.len()
        invariant
            i <= components@.len(),
            forall|j: int| 0 <= j < i ==> (#[trigger] components.deep_view()[j]) != ".git"@,
        decreases components@.len() - i,
    {
        if text::same(components[i].as_str(), ".git") {
            assert(components.deep_view()[i as int] == ".git"@);
            return true;
        }
        i += 1;
    }
    false
}

/// Whether any of the paths lies outside the git directories.
pub open spec fn touches_files(paths: Seq<Seq<Seq<char>>>) -> bool {
    exists|i: int| 0 <= i < paths.len() && !is_git_internal(#[trigger] paths[i])
}

fn any_file(paths: &Vec<Vec<String>>) -> (result: bool)
    ensures
        result == touches_files(paths.deep_view()),
{
    let mut i: usize = 0;
    while i < paths.len()
        invariant
            i <= paths@.len(),
            forall|j: int| 0 <= j < i ==> is_git_internal(#[trigger] paths.deep_view()[j]),
        decreases paths@.len() - i,
    {
        if !is_git_internal_path(&paths[i]) {
            assert(!is_git_internal(paths.deep_view()[i as int]));
            return true;
        }
        i += 1;
    }
    false
}

/// What the work on a session remembers: when the next push is due, and what was said last.
#[derive(Debug, PartialEq, Eq)]
pub struct WorkState {
    pub push_deadline: Option<u128>,
    pub message: String,
}

#[verifier::ext_equal]
pub struct WorkStateView {
    pub push_deadline: Option<u128>,
    pub message: Seq<char>,
}

impl WorkState {
    fn copy(&self) -> (state: WorkState)
        ensures
            state@ == self@,
    {
        WorkState { push_deadline: self.push_deadline, message: self.message.clone() }
    }
}

impl View for WorkState {
    type V = WorkStateView;

    open spec fn view(&self) -> WorkStateView {
        WorkStateView { push_deadline: self.push_deadline, message: self.message@ }
    }
}

impl DeepView for WorkState {
    type V = WorkStateView;

    open spec fn deep_view(&self) -> WorkStateView {
        self@
    }
}

/// The page of a session and the last message, printed.
pub open spec fn print_page_run(
    message: Seq<char>,
    push_deadline: Option<u128>,
    log: Seq<Reply>,
) -> Run<()> {
    status::render_work_session_status_run(push_deadline, log).and_then(
        |page: Seq<char>, log: Seq<Reply>|
            ask::attempt_run(RequestView::Print(page + "\nWork: "@ + message + "\n"@), log),
    )
}

pub open spec fn render_work_status_run(
    message: Seq<char>,
    push_deadline: Option<u128>,
    log: Seq<Reply>,
) -> Run<()> {
    ask::attempt_run(RequestView::Print("\x1b[2J\x1b[H"@), log).and_then(
        |_done: (), log: Seq<Reply>| print_page_run(message, push_deadline, log),
    )
}

/// Clears the terminal and shows how the session and the work on it stand.
pub fn render_work_status(log: &mut Log, message: &str, push_deadline: Option<u128>) -> (result:
    Result<(), Stop>)
    ensures
        Run::of(result, final(log)@) == render_work_status_run(
            message@,
            push_deadline,
            old(log)@,
        ),
{
    ask::attempt(log, Request::Print("\x1b[2J\x1b[H".to_owned()))?;
    let page = status::render_work_session_status(log, push_deadline)?;
    let screen = page.concat("\nWork: ").concat(message).concat("\n");
    ask::attempt(log, Request::Print(screen))
}

/// A state that is shown.
pub open spec fn shown_run(state: WorkStateView, log: Seq<Reply>) -> Run<WorkStateView> {
    render_work_status_run(state.message, state.push_deadline, log).and_then(
        |_done: (), log: Seq<Reply>| Run::Done(state, log),
    )
}

fn show(log: &mut Log, state: WorkState) -> (result: Result<WorkState, Stop>)
    ensures
        Run::of(result, final(log)@) == shown_run(state@, old(log)@),
{
    render_work_status(log, state.message.as_str(), state.push_deadline)?;
    Ok(state)
}

/// What is said after a change.
pub open spec fn change_text() -> Seq<char> {
    "Change detected. Next push after "@ + text::decimal((WORK_PUSH_DEBOUNCE / 60) as nat)
        + " minutes of quiet."@
}

/// The state after a change at `now`.
pub open spec fn state_after(now: u64) -> WorkStateView {
    WorkStateView { push_deadline: Some(quiet_after(now)), message: change_text() }
}

/// The state after a change, which is shown.
pub open spec fn noticed_run(log: Seq<Reply>) -> Run<WorkStateView> {
    ask::monotonic_run(log).and_then(
        |now: u64, log: Seq<Reply>| shown_run(state_after(now), log),
    )
}

/// The state after a problem of the watcher.
pub open spec fn warned(state: WorkStateView, error: Seq<char>) -> WorkStateView {
    WorkStateView { message: "Filesystem watcher warning: "@ + error, ..state }
}

/// The state after a wait for changes: a change starts the quiet period anew.
pub open spec fn after_change_run(state: WorkStateView, change: Change, log: Seq<Reply>) -> Run<
    WorkStateView,
> {
    match change {
        Change::Paths(paths) => if touches_files(paths.deep_view()) {
            noticed_run(log)
        } else {
            Run::Done(state, log)
        },
        Change::Problem(error) => shown_run(warned(state, error@), log),
        Change::Quiet => shown_run(state, log),
        Change::Disconnected => Run::Failed("Filesystem watcher stopped unexpectedly."@, log),
    }
}

fn after_change(log: &mut Log, state: WorkState, change: &Change) -> (result: Result<
    WorkState,
    Stop,
>)
    ensures
        Run::of(result, final(log)@) == after_change_run(state@, *change, old(log)@),
{
    match change {
        Change::Paths(paths) => if any_file(paths) {
            let now: u64 = ask::monotonic(log)?;
            let message = "Change detected. Next push after ".to_owned().concat(
                text::decimal_text((WORK_PUSH_DEBOUNCE / 60) as u128).as_str(),
            ).concat(" minutes of quiet.");
            show(log, WorkState { push_deadline: Some(deadline_after(now)), message })
        } else {
            Ok(state)
        },
        Change::Problem(error) => {
            let message = "Filesystem watcher warning: ".to_owned().concat(error.as_str());
            show(log, WorkState { push_deadline: state.push_deadline, message })
        },
        Change::Quiet => show(log, state),
        Change::Disconnected => Err(
            Stop::Fail("Filesystem watcher stopped unexpectedly.".to_owned()),
        ),
    }
}

/// Whether a push is due; the clock is read only where one is planned.
pub open spec fn is_due_run(push_deadline: Option<u128>, log: Seq<Reply>) -> Run<bool> {
    match push_deadline {
        Some(deadline) => ask::monotonic_run(log).and_then(
            |now: u64, log: Seq<Reply>| Run::Done(now >= deadline, log),
        ),
        None => Run::Done(false, log),
    }
}

fn is_due(log: &mut Log, push_deadline: Option<u128>) -> (result: Result<bool, Stop>)
    ensures
        Run::of(result, final(log)@) == is_due_run(push_deadline, old(log)@),
{
    match push_deadline {
        Some(deadline) => {
            let now: u64 = ask::monotonic(log)?;
            Ok(now as u128 >= deadline)
        },
        None => Ok(false),
    }
}

/// The state after a push: one that succeeded leaves nothing planned, one that failed is
/// planned again after the quiet period.
pub open spec fn pushed_run(pushed: Run<Seq<char>>) -> Run<WorkStateView> {
    match pushed {
        Run::Done(session, log) => Run::Done(
            WorkStateView {
                push_deadline: None,
                message: "Pushed `"@ + session + "`. Watching for changes."@,
            },
            log,
        ),
        Run::Failed(error, log) => ask::monotonic_run(log).and_then(
            |now: u64, log: Seq<Reply>|
                Run::Done(
                    WorkStateView {
                        push_deadline: Some(quiet_after(now)),
                        message: "Push failed: "@ + error,
                    },
                    log,
                ),
        ),
        Run::Asks(request) => Run::Asks(request),
    }
}

fn push(log: &mut Log) -> (result: Result<WorkState, Stop>)
    ensures
        Run::of(result, final(log)@) == push_once_run(old(log)@),
{
    match workflow::push_session(log) {
        Ok(session) => {
            let message = "Pushed `".to_owned().concat(session.as_str()).concat(
                "`. Watching for changes.",
            );
            Ok(WorkState { push_deadline: None, message })
        },
        Err(Stop::Fail(error)) => {
            let now: u64 = ask::monotonic(log)?;
            let message = "Push failed: ".to_owned().concat(error.as_str());
            Ok(WorkState { push_deadline: Some(deadline_after(now)), message })
        },
        Err(Stop::Ask(request)) => Err(Stop::Ask(request)),
    }
}

/// The state after a push.
pub open spec fn push_once_run(log: Seq<Reply>) -> Run<WorkStateView> {
    pushed_run(workflow::push_session_run(log))
}

/// The state after a push, which is shown.
pub open spec fn push_and_show_run(log: Seq<Reply>) -> Run<WorkStateView> {
    push_once_run(log).and_then(
        |state: WorkStateView, log: Seq<Reply>| shown_run(state, log),
    )
}

/// The state after a push that is due.
pub open spec fn push_now_run(push_deadline: Option<u128>, log: Seq<Reply>) -> Run<WorkStateView> {
    render_work_status_run("Pushing changes..."@, push_deadline, log).and_then(
        |_done: (), log: Seq<Reply>| push_and_show_run(log),
    )
}

/// The state after a push that was due, if one was.
pub open spec fn push_if_due_run(state: WorkStateView, log: Seq<Reply>) -> Run<WorkStateView> {
    is_due_run(state.push_deadline, log).and_then(
        |due: bool, log: Seq<Reply>|
            if due {
                push_now_run(state.push_deadline, log)
            } else {
                Run::Done(state, log)
            },
    )
}

fn push_if_due(log: &mut Log, state: WorkState) -> (result: Result<WorkState, Stop>)
    ensures
        Run::of(result, final(log)@) == push_if_due_run(state@, old(log)@),
{
    if !is_due(log, state.push_deadline)? {
        return Ok(state);
    }
    render_work_status(log, "Pushing changes...", state.push_deadline)?;
    let state = push(log)?;
    show(log, state)
}

/// How far the watch over the working directory has come.
#[derive(Debug, PartialEq, Eq)]
pub enum LoopStage {
    Starting,
    Watching(WorkState),
    Finished,
}

#[verifier::ext_equal]
pub enum LoopStageView {
    Starting,
    Watching(WorkStateView),
    Finished,
}

impl View for LoopStage {
    type V = LoopStageView;

    open spec fn view(&self) -> LoopStageView {
        match self {
            LoopStage::Starting => LoopStageView::Starting,
            LoopStage::Watching(state) => LoopStageView::Watching(state@),
            LoopStage::Finished => LoopStageView::Finished,
        }
    }
}

impl DeepView for LoopStage {
    type V = LoopStageView;

    open spec fn deep_view(&self) -> LoopStageView {
        self@
    }
}

/// The state before the first change.
pub open spec fn first_state() -> WorkStateView {
    WorkStateView {
        push_deadline: None,
        message: "Watching for changes. Press Ctrl+C to unclaim and exit."@,
    }
}

/// What the watch needs before the first turn.
pub open spec fn set_up_watch_run(log: Seq<Reply>) -> Run<()> {
    ask::action_run(
        RequestView::CatchInterrupts,
        "Failed to install Ctrl+C handler: "@,
        log,
    ).and_then(
        |_done: (), log: Seq<Reply>|
            ask::action_run(
                RequestView::CreateWatcher,
                "Failed to create filesystem watcher: "@,
                log,
            ).and_then(
                |_done: (), log: Seq<Reply>|
                    ask::action_run(
                        RequestView::FindWorkingDirectory,
                        "Failed to read cwd: "@,
                        log,
                    ).and_then(
                        |_done: (), log: Seq<Reply>|
                            ask::action_run(
                                RequestView::WatchWorkingDirectory,
                                "Failed to watch working directory: "@,
                                log,
                            ),
                    ),
            ),
    )
}

pub open spec fn start_watching_run(log: Seq<Reply>) -> Run<WorkStateView> {
    set_up_watch_run(log).and_then(
        |_done: (), log: Seq<Reply>| shown_run(first_state(), log),
    )
}

fn start_watching(log: &mut Log) -> (result: Result<WorkState, Stop>)
    ensures
        Run::of(result, final(log)@) == start_watching_run(old(log)@),
{
    ask::action(log, Request::CatchInterrupts, "Failed to install Ctrl+C handler: ")?;
    ask::action(log, Request::CreateWatcher, "Failed to create filesystem watcher: ")?;
    ask::action(log, Request::FindWorkingDirectory, "Failed to read cwd: ")?;
    ask::action(log, Request::WatchWorkingDirectory, "Failed to watch working directory: ")?;
    let state = WorkState {
        push_deadline: None,
        message: "Watching for changes. Press Ctrl+C to unclaim and exit.".to_owned(),
    };
    show(log, state)
}

/// The end of a turn of the watch, after the wait for changes.
pub open spec fn turn_run(state: WorkStateView, change: Change, log: Seq<Reply>) -> Run<
    WorkStateView,
> {
    after_change_run(state, change, log).and_then(
        |state: WorkStateView, log: Seq<Reply>| push_if_due_run(state, log),
    )
}

/// The end of the watch after Ctrl+C.
pub open spec fn stop_run(push_deadline: Option<u128>, log: Seq<Reply>) -> Run<LoopStageView> {
    render_work_status_run("Stopping. Unclaiming session..."@, push_deadline, log).and_then(
        |_done: (), log: Seq<Reply>| Run::Done(LoopStageView::Finished, log),
    )
}

/// One turn of the watch: a wait for changes and a push that may be due.
pub open spec fn wait_run(state: WorkStateView, log: Seq<Reply>) -> Run<LoopStageView> {
    ask::change_run(log).and_then(
        |change: Change, log: Seq<Reply>|
            turn_run(state, change, log).and_then(
                |state: WorkStateView, log: Seq<Reply>|
                    Run::Done(LoopStageView::Watching(state), log),
            ),
    )
}

/// One turn of the watch, or the end of it after Ctrl+C.
pub open spec fn watch_run(state: WorkStateView, log: Seq<Reply>) -> Run<LoopStageView> {
    ask::still_running_run(log).and_then(
        |running: bool, log: Seq<Reply>|
            if running {
                wait_run(state, log)
            } else {
                stop_run(state.push_deadline, log)
            },
    )
}

fn watch(log: &mut Log, state: WorkState) -> (result: Result<LoopStage, Stop>)
    ensures
        Run::of(result, final(log)@) == watch_run(state@, old(log)@),
{
    if !ask::still_running(log)? {
        render_work_status(log, "Stopping. Unclaiming session...", state.push_deadline)?;
        return Ok(LoopStage::Finished);
    }
    let change = ask::change(log)?;
    let state = after_change(log, state, change)?;
    let state = push_if_due(log, state)?;
    Ok(LoopStage::Watching(state))
}

pub open spec fn run_work_loop_run(stage: LoopStageView, log: Seq<Reply>) -> Run<LoopStageView> {
    match stage {
        LoopStageView::Starting => start_watching_run(log).and_then(
            |state: WorkStateView, log: Seq<Reply>|
                Run::Done(LoopStageView::Watching(state), log),
        ),
        LoopStageView::Watching(state) => watch_run(state, log),
        LoopStageView::Finished => Run::Done(LoopStageView::Finished, log),
    }
}

/// Takes the watch over the working directory one stage further. Every stage starts with a
/// log of its own.
pub fn run_work_loop(log: &mut Log, stage: &LoopStage) -> (result: Result<LoopStage, Stop>)
    ensures
        Run::of(result, final(log)@) == run_work_loop_run(stage@, old(log)@),
{
    match stage {
        LoopStage::Starting => {
            let state = start_watching(log)?;
            Ok(LoopStage::Watching(state))
        },
        LoopStage::Watching(state) => watch(log, state.copy()),
        LoopStage::Finished => Ok(LoopStage::Finished),
    }
}

/// How far the work on a session has come. The watch leaves its failure behind, if it failed.
#[derive(Debug, PartialEq, Eq)]
pub enum WorkStage {
    Starting,
    Looping(LoopStage),
    Leaving(Option<String>),
    Finished,
}

#[verifier::ext_equal]
pub enum WorkStageView {
    Starting,
    Looping(LoopStageView),
    Leaving(Option<Seq<char>>),
    Finished,
}

impl View for WorkStage {
    type V = WorkStageView;

    open spec fn view(&self) -> WorkStageView {
        match self {
            WorkStage::Starting => WorkStageView::Starting,
            WorkStage::Looping(stage) => WorkStageView::Looping(stage@),
            WorkStage::Leaving(failure) => WorkStageView::Leaving(failure.deep_view()),
            WorkStage::Finished => WorkStageView::Finished,
        }
    }
}

impl DeepView for WorkStage {
    type V = WorkStageView;

    open spec fn deep_view(&self) -> WorkStageView {
        self@
    }
}

/// The session to work on: the one that is named, which is started, else the one that is
/// checked out.
pub open spec fn session_to_work_on_run(session_name: Option<Seq<char>>, log: Seq<Reply>) -> Run<
    Seq<char>,
> {
    match session_name {
        Some(name) => workflow::start_jist_session_run(name, log).and_then(
            |commit: Seq<char>, log: Seq<Reply>| Run::Done(name, log),
        ),
        None => session::current_session_name_run(log).and_then(
            |name: Option<Seq<char>>, log: Seq<Reply>|
                match name {
                    Some(name) => Run::Done(name, log),
                    None => Run::Failed(
                        "Check out a JIST session or pass a session name before running `jist work`."@,
                        log,
                    ),
                },
        ),
    }
}

fn session_to_work_on(log: &mut Log, session_name: Option<&str>) -> (result: Result<String, Stop>)
    ensures
        Run::of(result, final(log)@) == session_to_work_on_run(
            session_name.deep_view(),
            old(log)@,
        ),
{
    match session_name {
        Some(name) => {
            workflow::start_jist_session(log, name)?;
            Ok(name.to_owned())
        },
        None => match session::current_session_name(log)? {
            Some(name) => Ok(name),
            None => Err(
                Stop::Fail(
                    "Check out a JIST session or pass a session name before running `jist work`.".to_owned(),
                ),
            ),
        },
    }
}

/// The claim of the session to work on.
pub open spec fn claim_to_work_run(session_name: Seq<char>, log: Seq<Reply>) -> Run<WorkStageView> {
    sync::ensure_fully_synchronized_run(session::branch_of(session_name), log).and_then(
        |_done: (), log: Seq<Reply>|
            workflow::claim_session_run(log).and_then(
                |claimed: Seq<char>, log: Seq<Reply>|
                    Run::Done(WorkStageView::Looping(LoopStageView::Starting), log),
            ),
    )
}

pub open spec fn begin_work_run(session_name: Option<Seq<char>>, log: Seq<Reply>) -> Run<
    WorkStageView,
> {
    session_to_work_on_run(session_name, log).and_then(
        |name: Seq<char>, log: Seq<Reply>| claim_to_work_run(name, log),
    )
}

/// The stage after a stage of the watch: whatever ends the watch, the claim is still to be
/// given back.
pub open spec fn after_loop_run(run: Run<LoopStageView>) -> Run<WorkStageView> {
    match run {
        Run::Done(LoopStageView::Finished, log) => Run::Done(WorkStageView::Leaving(None), log),
        Run::Done(stage, log) => Run::Done(WorkStageView::Looping(stage), log),
        Run::Failed(message, log) => Run::Done(WorkStageView::Leaving(Some(message)), log),
        Run::Asks(request) => Run::Asks(request),
    }
}

/// How the work ends, from the failure of the watch, if it failed, and from how the claim
/// was given back.
pub open spec fn leave_run(failure: Option<Seq<char>>, unclaimed: Run<Seq<char>>) -> Run<
    WorkStageView,
> {
    match (failure, unclaimed) {
        (_, Run::Asks(request)) => Run::Asks(request),
        (None, Run::Done(_, log)) => Run::Done(WorkStageView::Finished, log),
        (Some(error), Run::Done(_, log)) => Run::Failed(error, log),
        (None, Run::Failed(error, log)) => Run::Failed(
            "Failed to unclaim JIST session: "@ + error,
            log,
        ),
        (Some(error), Run::Failed(unclaim_error, log)) => Run::Failed(
            error + "\nFailed to unclaim JIST session: "@ + unclaim_error,
            log,
        ),
    }
}

fn leave(log: &mut Log, failure: &Option<String>) -> (result: Result<WorkStage, Stop>)
    ensures
        Run::of(result, final(log)@) == leave_run(
            failure.deep_view(),
            workflow::unclaim_session_run(old(log)@),
        ),
{
    match (failure, workflow::unclaim_session(log)) {
        (_, Err(Stop::Ask(request))) => Err(Stop::Ask(request)),
        (None, Ok(_)) => Ok(WorkStage::Finished),
        (Some(error), Ok(_)) => Err(Stop::Fail(error.clone())),
        (None, Err(Stop::Fail(error))) => Err(
            Stop::Fail("Failed to unclaim JIST session: ".to_owned().concat(error.as_str())),
        ),
        (Some(error), Err(Stop::Fail(unclaim_error))) => Err(
            Stop::Fail(
                error.clone().concat("\nFailed to unclaim JIST session: ").concat(
                    unclaim_error.as_str(),
                ),
            ),
        ),
    }
}

pub open spec fn work_session_run(
    session_name: Option<Seq<char>>,
    stage: WorkStageView,
    log: Seq<Reply>,
) -> Run<WorkStageView> {
    match stage {
        WorkStageView::Starting => begin_work_run(session_name, log),
        WorkStageView::Looping(stage) => after_loop_run(run_work_loop_run(stage, log)),
        WorkStageView::Leaving(failure) => leave_run(failure, workflow::unclaim_session_run(log)),
        WorkStageView::Finished => Run::Done(WorkStageView::Finished, log),
    }
}

/// Takes the work on a session one stage further. Every stage starts with a log of its own.
pub fn work_session(log: &mut Log, session_name: Option<&str>, stage: &WorkStage) -> (result: Result<
    WorkStage,
    Stop,
>)
    ensures
        Run::of(result, final(log)@) == work_session_run(
            session_name.deep_view(),
            stage@,
            old(log)@,
        ),
{
    match stage {
        WorkStage::Starting => {
            let name = session_to_work_on(log, session_name)?;
            let jist_branch = session::jist_branch_name(name.as_str());
            sync::ensure_fully_synchronized(log, jist_branch.as_str())?;
            workflow::claim_session(log)?;
            Ok(WorkStage::Looping(LoopStage::Starting))
        },
        WorkStage::Looping(stage) => match run_work_loop(log, stage) {
            Ok(LoopStage::Finished) => Ok(WorkStage::Leaving(None)),
            Ok(stage) => Ok(WorkStage::Looping(stage)),
            Err(Stop::Fail(message)) => Ok(WorkStage::Leaving(Some(message))),
            Err(Stop::Ask(request)) => Err(Stop::Ask(request)),
        },
        WorkStage::Leaving(failure) => leave(log, failure),
        WorkStage::Finished => Ok(WorkStage::Finished),
    }
}

} // verus!
