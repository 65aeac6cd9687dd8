//! The watch over the working directory, turn by turn and word for word.

use crate::ask;
use crate::exchange::{Change, Reply, RequestView, Run};
use crate::laws::dialogue;
use crate::laws::dialogue::Turn;
use crate::laws::pages;
use crate::laws::pages::{SessionPage, StatusPage};
use crate::laws::replay;
use crate::laws::transcripts;
use crate::session::SessionInfoView;
use crate::status;
use crate::text;
use crate::work;
use crate::work::{LoopStageView, WorkStageView, WorkStateView};
use crate::workflow;
use vstd::prelude::*;

verus! {

/// What a screen is made of.
pub struct Screen {
    pub page: Seq<char>,
    pub sessions: Seq<SessionInfoView>,
    pub listed: int,
    pub session_page: SessionPage,
    pub relisted: int,
    pub status: StatusPage,
}

/// The terminal was cleared, and then the page for what is checked out was printed with a
/// message under it, whether the terminal took them or not.
#[verifier::opaque]
pub open spec fn is_screen(
    d: Seq<Turn>,
    message: Seq<char>,
    push_deadline: Option<u128>,
    screen: Screen,
) -> bool {
    &&& d.len() >= 2
    &&& d[0].request == RequestView::Print("\x1b[2J\x1b[H"@)
    &&& d[0].reply is Outcome
    &&& pages::is_work_page(
        d.subrange(1, d.len() - 1),
        push_deadline,
        screen.page,
        screen.sessions,
        screen.listed,
        screen.session_page,
        screen.relisted,
        screen.status,
    )
    &&& d.last().request == RequestView::Print(screen.page + "\nWork: "@ + message + "\n"@)
    &&& d.last().reply is Outcome
}

#[verifier::spinoff_prover]
proof fn lemma_printed(d: Seq<Turn>, message: Seq<char>, push_deadline: Option<u128>) -> (screen:
    Screen)
    requires
        dialogue::succeeds(
            |log: Seq<Reply>| work::print_page_run(message, push_deadline, log),
            d,
            (),
        ),
    ensures
        d.len() >= 1,
        pages::is_work_page(
            d.drop_last(),
            push_deadline,
            screen.page,
            screen.sessions,
            screen.listed,
            screen.session_page,
            screen.relisted,
            screen.status,
        ),
        d.last().request == RequestView::Print(screen.page + "\nWork: "@ + message + "\n"@),
        d.last().reply is Outcome,
{
    let first = |log: Seq<Reply>| status::render_work_session_status_run(push_deadline, log);
    assert forall|log: Seq<Reply>, more: Seq<Reply>| #[trigger]
        replay::replays(first, log, more) by {
        replay::lemma_work_session_status(push_deadline, log, more);
    }
    let cut = dialogue::lemma_split(
        |log: Seq<Reply>| work::print_page_run(message, push_deadline, log),
        first,
        |page: Seq<char>, log: Seq<Reply>|
            ask::attempt_run(RequestView::Print(page + "\nWork: "@ + message + "\n"@), log),
        d,
        (),
    );
    let page = cut.1;
    let tail = d.skip(cut.0);
    lemma_attempted(
        tail,
        RequestView::Print(page + "\nWork: "@ + message + "\n"@),
    );
    assert(d.drop_last() =~= d.take(cut.0));
    assert(tail[0] == d.last());
    let at = pages::law_work_page_transcript(d.take(cut.0), push_deadline, page);
    Screen {
        page,
        sessions: at.0,
        listed: at.1,
        session_page: at.2,
        relisted: at.3,
        status: at.4,
    }
}

proof fn lemma_attempted(d: Seq<Turn>, request: RequestView)
    requires
        dialogue::succeeds(|log: Seq<Reply>| ask::attempt_run(request, log), d, ()),
    ensures
        d.len() == 1,
        d[0].request == request,
        d[0].reply is Outcome,
{
    dialogue::lemma_replies();
    transcripts::lemma_steps(|log: Seq<Reply>| ask::attempt_run(request, log), d, ());
}

/// Whenever the work is shown, the terminal is cleared first, and then the page for what is
/// checked out is printed with the message.
#[verifier::spinoff_prover]
pub proof fn law_screen_transcript(
    d: Seq<Turn>,
    message: Seq<char>,
    push_deadline: Option<u128>,
) -> (screen: Screen)
    requires
        dialogue::succeeds(
            |log: Seq<Reply>| work::render_work_status_run(message, push_deadline, log),
            d,
            (),
        ),
    ensures
        is_screen(d, message, push_deadline, screen),
{
    reveal(is_screen);
    let clear = RequestView::Print("\x1b[2J\x1b[H"@);
    let first = |log: Seq<Reply>| ask::attempt_run(clear, log);
    assert forall|log: Seq<Reply>, more: Seq<Reply>| #[trigger]
        replay::replays(first, log, more) by {
        replay::lemma_log();
    }
    let cut = dialogue::lemma_split(
        |log: Seq<Reply>| work::render_work_status_run(message, push_deadline, log),
        first,
        |_done: (), log: Seq<Reply>| work::print_page_run(message, push_deadline, log),
        d,
        (),
    );
    lemma_attempted(d.take(cut.0), clear);
    let tail = d.skip(1);
    let screen = lemma_printed(tail, message, push_deadline);
    assert(d.take(1)[0] == d[0]);
    assert(tail.drop_last() =~= d.subrange(1, d.len() - 1));
    screen
}

#[verifier::spinoff_prover]
proof fn lemma_shown(d: Seq<Turn>, state: WorkStateView, shown: WorkStateView) -> (screen: Screen)
    requires
        dialogue::succeeds(|log: Seq<Reply>| work::shown_run(state, log), d, shown),
    ensures
        shown == state,
        is_screen(d, state.message, state.push_deadline, screen),
{
    let first = |log: Seq<Reply>|
        work::render_work_status_run(state.message, state.push_deadline, log);
    assert forall|log: Seq<Reply>, more: Seq<Reply>| #[trigger]
        replay::replays(first, log, more) by {
        replay::lemma_work_status(state.message, state.push_deadline, log, more);
    }
    let done = dialogue::lemma_mapped(
        |log: Seq<Reply>| work::shown_run(state, log),
        first,
        |_done: (), log: Seq<Reply>| Run::Done(state, log),
        d,
        shown,
    );
    law_screen_transcript(d, state.message, state.push_deadline)
}

/// Whenever the watch starts, Ctrl+C is caught, and the working directory is found and
/// watched, in this order and each with success, and then the work is shown. Nothing is
/// planned yet.
#[verifier::spinoff_prover]
pub proof fn law_watch_starts(d: Seq<Turn>, stage: LoopStageView) -> (screen: Screen)
    requires
        dialogue::succeeds(
            |log: Seq<Reply>| work::run_work_loop_run(LoopStageView::Starting, log),
            d,
            stage,
        ),
    ensures
        d.len() >= 4,
        d[0].request == RequestView::CatchInterrupts,
        d[1].request == RequestView::CreateWatcher,
        d[2].request == RequestView::FindWorkingDirectory,
        d[3].request == RequestView::WatchWorkingDirectory,
        d[0].reply matches Reply::Outcome(Ok(_)),
        d[1].reply matches Reply::Outcome(Ok(_)),
        d[2].reply matches Reply::Outcome(Ok(_)),
        d[3].reply matches Reply::Outcome(Ok(_)),
        stage == LoopStageView::Watching(
            WorkStateView {
                push_deadline: None,
                message: "Watching for changes. Press Ctrl+C to unclaim and exit."@,
            },
        ),
        is_screen(
            d.skip(4),
            "Watching for changes. Press Ctrl+C to unclaim and exit."@,
            None,
            screen,
        ),
{
    let start = |log: Seq<Reply>| work::start_watching_run(log);
    assert forall|log: Seq<Reply>, more: Seq<Reply>| #[trigger]
        replay::replays(start, log, more) by {
        replay::lemma_start_watching(log, more);
    }
    let state = dialogue::lemma_mapped(
        |log: Seq<Reply>| work::run_work_loop_run(LoopStageView::Starting, log),
        start,
        |state: WorkStateView, log: Seq<Reply>|
            Run::Done(LoopStageView::Watching(state), log),
        d,
        stage,
    );
    lemma_started(d, state)
}

#[verifier::spinoff_prover]
proof fn lemma_started(d: Seq<Turn>, state: WorkStateView) -> (screen: Screen)
    requires
        dialogue::succeeds(|log: Seq<Reply>| work::start_watching_run(log), d, state),
    ensures
        d.len() >= 4,
        d[0].request == RequestView::CatchInterrupts,
        d[1].request == RequestView::CreateWatcher,
        d[2].request == RequestView::FindWorkingDirectory,
        d[3].request == RequestView::WatchWorkingDirectory,
        d[0].reply matches Reply::Outcome(Ok(_)),
        d[1].reply matches Reply::Outcome(Ok(_)),
        d[2].reply matches Reply::Outcome(Ok(_)),
        d[3].reply matches Reply::Outcome(Ok(_)),
        state.push_deadline is None,
        state.message == "Watching for changes. Press Ctrl+C to unclaim and exit."@,
        is_screen(
            d.skip(4),
            "Watching for changes. Press Ctrl+C to unclaim and exit."@,
            None,
            screen,
        ),
{
    let first = |log: Seq<Reply>| work::set_up_watch_run(log);
    assert forall|log: Seq<Reply>, more: Seq<Reply>| #[trigger]
        replay::replays(first, log, more) by {
        replay::lemma_set_up_watch(log, more);
    }
    let cut = dialogue::lemma_split(
        |log: Seq<Reply>| work::start_watching_run(log),
        first,
        |_done: (), log: Seq<Reply>| work::shown_run(work::first_state(), log),
        d,
        state,
    );
    let front = d.take(cut.0);
    lemma_set_up(front);
    assert(front[0] == d[0] && front[1] == d[1] && front[2] == d[2] && front[3] == d[3]);
    lemma_shown(d.skip(4), work::first_state(), state)
}

#[verifier::spinoff_prover]
proof fn lemma_set_up(d: Seq<Turn>)
    requires
        dialogue::succeeds(|log: Seq<Reply>| work::set_up_watch_run(log), d, ()),
    ensures
        d.len() == 4,
        d[0].request == RequestView::CatchInterrupts,
        d[1].request == RequestView::CreateWatcher,
        d[2].request == RequestView::FindWorkingDirectory,
        d[3].request == RequestView::WatchWorkingDirectory,
        d[0].reply matches Reply::Outcome(Ok(_)),
        d[1].reply matches Reply::Outcome(Ok(_)),
        d[2].reply matches Reply::Outcome(Ok(_)),
        d[3].reply matches Reply::Outcome(Ok(_)),
{
    dialogue::lemma_replies();
    transcripts::lemma_steps(|log: Seq<Reply>| work::set_up_watch_run(log), d, ());
}

/// Whether some path has no component `.git`.
pub open spec fn names_a_file(paths: Seq<Seq<Seq<char>>>) -> bool {
    exists|i: int| 0 <= i < paths.len() && !(#[trigger] paths[i]).contains(".git"@)
}

pub(crate) proof fn lemma_names_a_file(paths: Seq<Seq<Seq<char>>>)
    ensures
        names_a_file(paths) == work::touches_files(paths),
{
    assert forall|i: int| 0 <= i < paths.len() implies work::is_git_internal(
        #[trigger] paths[i],
    ) == paths[i].contains(".git"@) by {}
}

/// What a wait for changes makes of the state: a change to a file plans a push for five
/// minutes later, anything else leaves the plan as it is. All but a change in git's own
/// directories is shown.
pub open spec fn is_change_noticed(
    d: Seq<Turn>,
    change: Change,
    before: WorkStateView,
    after: WorkStateView,
    screen: Screen,
) -> bool {
    match change {
        Change::Paths(paths) => if names_a_file(paths.deep_view()) {
            &&& d.len() >= 1
            &&& d[0].request == RequestView::Monotonic
            &&& d[0].reply matches Reply::Monotonic(now) && after.push_deadline == Some(
                (now + 300_000_000_000) as u128,
            )
            &&& after.message == "Change detected. Next push after "@ + "5"@
                + " minutes of quiet."@
            &&& is_screen(d.skip(1), after.message, after.push_deadline, screen)
        } else {
            d.len() == 0 && after == before
        },
        Change::Problem(error) => {
            &&& after.push_deadline == before.push_deadline
            &&& after.message == "Filesystem watcher warning: "@ + error@
            &&& is_screen(d, after.message, after.push_deadline, screen)
        },
        Change::Quiet => after == before && is_screen(
            d,
            before.message,
            before.push_deadline,
            screen,
        ),
        Change::Disconnected => false,
    }
}

pub(crate) proof fn lemma_change_text()
    ensures
        work::change_text() == "Change detected. Next push after "@ + "5"@
            + " minutes of quiet."@,
{
    reveal_strlit("5");
    assert(text::decimal(5) == seq!['5']);
    assert(text::decimal(5) =~= "5"@);
}

#[verifier::spinoff_prover]
proof fn lemma_change_noticed(
    d: Seq<Turn>,
    change: Change,
    before: WorkStateView,
    after: WorkStateView,
) -> (screen: Screen)
    requires
        dialogue::succeeds(
            |log: Seq<Reply>| work::after_change_run(before, change, log),
            d,
            after,
        ),
    ensures
        is_change_noticed(d, change, before, after, screen),
{
    let whole = |log: Seq<Reply>| work::after_change_run(before, change, log);
    lemma_change_text();
    match change {
        Change::Paths(paths) => {
            lemma_names_a_file(paths.deep_view());
            if work::touches_files(paths.deep_view()) {
                let same = |log: Seq<Reply>| work::noticed_run(log);
                dialogue::lemma_same(whole, same, d, after);
                lemma_noticed(d, after)
            } else {
                dialogue::lemma_replies();
                transcripts::lemma_steps(whole, d, after);
                arbitrary()
            }
        },
        Change::Problem(error) => {
            let state = work::warned(before, error@);
            let same = |log: Seq<Reply>| work::shown_run(state, log);
            dialogue::lemma_same(whole, same, d, after);
            lemma_shown(d, state, after)
        },
        Change::Quiet => {
            let same = |log: Seq<Reply>| work::shown_run(before, log);
            dialogue::lemma_same(whole, same, d, after);
            lemma_shown(d, before, after)
        },
        Change::Disconnected => {
            dialogue::lemma_replies();
            transcripts::lemma_steps(whole, d, after);
            arbitrary()
        },
    }
}

#[verifier::spinoff_prover]
proof fn lemma_noticed(d: Seq<Turn>, after: WorkStateView) -> (screen: Screen)
    requires
        dialogue::succeeds(|log: Seq<Reply>| work::noticed_run(log), d, after),
    ensures
        d.len() >= 1,
        d[0].request == RequestView::Monotonic,
        d[0].reply matches Reply::Monotonic(now) && after.push_deadline == Some(
            (now + 300_000_000_000) as u128,
        ),
        after.message == work::change_text(),
        is_screen(d.skip(1), after.message, after.push_deadline, screen),
{
    let first = |log: Seq<Reply>| ask::monotonic_run(log);
    assert forall|log: Seq<Reply>, more: Seq<Reply>| #[trigger]
        replay::replays(first, log, more) by {
        replay::lemma_log();
    }
    let cut = dialogue::lemma_split(
        |log: Seq<Reply>| work::noticed_run(log),
        first,
        |now: u64, log: Seq<Reply>| work::shown_run(work::state_after(now), log),
        d,
        after,
    );
    lemma_clock(d.take(cut.0), cut.1);
    assert(d.take(1)[0] == d[0]);
    lemma_shown(d.skip(1), work::state_after(cut.1), after)
}

proof fn lemma_clock(d: Seq<Turn>, now: u64)
    requires
        dialogue::succeeds(|log: Seq<Reply>| ask::monotonic_run(log), d, now),
    ensures
        d.len() == 1,
        d[0].request == RequestView::Monotonic,
        d[0].reply == Reply::Monotonic(now),
{
    dialogue::lemma_replies();
    transcripts::lemma_steps(|log: Seq<Reply>| ask::monotonic_run(log), d, now);
}

/// What became of a push: one that succeeded leaves nothing planned, one that failed is
/// planned again for five minutes later.
pub open spec fn is_pushed(d: Seq<Turn>, after: WorkStateView, p: Pushed) -> bool {
    if p.succeeded {
        &&& transcripts::is_push(d, p.name, p.entered, p.claimed)
        &&& after.push_deadline is None
        &&& after.message == "Pushed `"@ + p.name + "`. Watching for changes."@
    } else {
        &&& d.len() >= 1
        &&& dialogue::fails(
            |log: Seq<Reply>| workflow::push_session_run(log),
            d.drop_last(),
            p.error,
        )
        &&& d.last().request == RequestView::Monotonic
        &&& d.last().reply matches Reply::Monotonic(now) && after.push_deadline == Some(
            (now + 300_000_000_000) as u128,
        )
        &&& after.message == "Push failed: "@ + p.error
    }
}

/// How a push went: the session and the parts of the push, or the failure.
pub struct Pushed {
    pub succeeded: bool,
    pub name: Seq<char>,
    pub entered: int,
    pub claimed: int,
    pub error: Seq<char>,
}

#[verifier::spinoff_prover]
proof fn lemma_pushed(d: Seq<Turn>, after: WorkStateView) -> (p: Pushed)
    requires
        dialogue::succeeds(|log: Seq<Reply>| work::push_once_run(log), d, after),
    ensures
        is_pushed(d, after, p),
{
    let whole = |log: Seq<Reply>| work::push_once_run(log);
    let push = |log: Seq<Reply>| workflow::push_session_run(log);
    assert forall|log: Seq<Reply>| #[trigger] whole(log) == work::pushed_run(push(log)) by {}
    assert forall|log: Seq<Reply>, more: Seq<Reply>| #[trigger]
        replay::replays(push, log, more) by {
        replay::lemma_push(log, more);
    }
    lemma_pushed_of(whole, push, d, after)
}

#[verifier::spinoff_prover]
proof fn lemma_pushed_of(
    whole: spec_fn(Seq<Reply>) -> Run<WorkStateView>,
    push: spec_fn(Seq<Reply>) -> Run<Seq<char>>,
    d: Seq<Turn>,
    after: WorkStateView,
) -> (p: Pushed)
    requires
        dialogue::succeeds(whole, d, after),
        push == (|log: Seq<Reply>| workflow::push_session_run(log)),
        forall|log: Seq<Reply>| #[trigger] whole(log) == work::pushed_run(push(log)),
        forall|log: Seq<Reply>, more: Seq<Reply>| #[trigger] replay::replays(push, log, more),
    ensures
        is_pushed(d, after, p),
{
    let all = dialogue::replies(d);
    assert(all + Seq::empty() =~= all);
    assert(whole(all + Seq::empty()) == Run::Done(after, Seq::<Reply>::empty()));
    match push(all) {
        Run::Done(name, rest) => {
            lemma_push_done(whole, push, d, after, name);
            let at = transcripts::law_push_transcript(d, name);
            Pushed {
                succeeded: true,
                name,
                entered: at.0,
                claimed: at.1,
                error: Seq::empty(),
            }
        },
        Run::Failed(error, rest) => {
            lemma_push_failed(whole, push, d, after, error);
            Pushed { succeeded: false, name: Seq::empty(), entered: 0, claimed: 0, error }
        },
        Run::Asks(_) => arbitrary(),
    }
}

#[verifier::spinoff_prover]
proof fn lemma_push_done(
    whole: spec_fn(Seq<Reply>) -> Run<WorkStateView>,
    push: spec_fn(Seq<Reply>) -> Run<Seq<char>>,
    d: Seq<Turn>,
    after: WorkStateView,
    name: Seq<char>,
)
    requires
        dialogue::succeeds(whole, d, after),
        forall|log: Seq<Reply>| #[trigger] whole(log) == work::pushed_run(push(log)),
        forall|log: Seq<Reply>, more: Seq<Reply>| #[trigger] replay::replays(push, log, more),
        push(dialogue::replies(d)) matches Run::Done(own, _) && own == name,
    ensures
        dialogue::succeeds(push, d, name),
        after.push_deadline is None,
        after.message == "Pushed `"@ + name + "`. Watching for changes."@,
{
    let all = dialogue::replies(d);
    assert(all + Seq::empty() =~= all);
    assert(whole(all + Seq::empty()) == Run::Done(after, Seq::<Reply>::empty()));
    assert(push(all) == Run::Done(name, Seq::<Reply>::empty()));
    assert forall|rest: Seq<Reply>| push(#[trigger] (all + rest)) == Run::Done(name, rest) by {
        assert(replay::replays(push, all, rest));
        assert(Seq::<Reply>::empty() + rest =~= rest);
    }
    assert forall|n: int| 0 <= n < d.len() implies push(#[trigger] all.take(n)) == Run::<
        Seq<char>,
    >::Asks(d[n].request) by {
        assert(whole(all.take(n)) == Run::<WorkStateView>::Asks(d[n].request));
        let later = all.skip(n);
        assert(all.take(n) + later =~= all);
        assert(replay::replays(push, all.take(n), later));
    }
}

#[verifier::spinoff_prover]
proof fn lemma_push_failed(
    whole: spec_fn(Seq<Reply>) -> Run<WorkStateView>,
    push: spec_fn(Seq<Reply>) -> Run<Seq<char>>,
    d: Seq<Turn>,
    after: WorkStateView,
    error: Seq<char>,
)
    requires
        dialogue::succeeds(whole, d, after),
        forall|log: Seq<Reply>| #[trigger] whole(log) == work::pushed_run(push(log)),
        forall|log: Seq<Reply>, more: Seq<Reply>| #[trigger] replay::replays(push, log, more),
        push(dialogue::replies(d)) matches Run::Failed(own, _) && own == error,
    ensures
        d.len() >= 1,
        dialogue::fails(push, d.drop_last(), error),
        d.last().request == RequestView::Monotonic,
        d.last().reply matches Reply::Monotonic(now) && after.push_deadline == Some(
            (now + 300_000_000_000) as u128,
        ),
        after.message == "Push failed: "@ + error,
{
    let all = dialogue::replies(d);
    assert(all + Seq::empty() =~= all);
    assert(whole(all + Seq::empty()) == Run::Done(after, Seq::<Reply>::empty()));
    let rest = push(all)->Failed_1;
    assert(rest.len() == 1) by {
        assert(rest.skip(1).len() == 0);
    }
    assert(replay::replays(push, all, Seq::empty()));
    let m = d.len() - 1;
    let front = all.take(m);
    let end = all.skip(m);
    assert(front + end =~= all);
    assert(dialogue::replies(d.drop_last()) =~= front);
    assert forall|n: int| 0 <= n <= m implies ({
        let part = push(#[trigger] all.take(n));
        n < m ==> part == Run::<Seq<char>>::Asks(d[n].request)
    }) by {
        let later = all.skip(n);
        assert(all.take(n) + later =~= all);
        assert(replay::replays(push, all.take(n), later));
        if n < m {
            assert(whole(all.take(n)) == Run::<WorkStateView>::Asks(d[n].request));
            if push(all.take(n)) is Failed {
                let own = push(all.take(n))->Failed_1;
                assert((own + later).len() == rest.len());
            }
        }
    }
    assert(replay::replays(push, front, end));
    let own = push(front)->Failed_1;
    if push(front) is Asks {
        assert(rest.len() < end.len());
    }
    assert(push(front) is Failed);
    assert((own + end).len() == rest.len());
    assert(own =~= Seq::<Reply>::empty());
    assert(own + end =~= end);
    assert(rest == end);
    assert forall|rest: Seq<Reply>| push(#[trigger] (front + rest)) == Run::<Seq<char>>::Failed(
        error,
        rest,
    ) by {
        assert(replay::replays(push, front, rest));
        assert(Seq::<Reply>::empty() + rest =~= rest);
    }
    assert forall|n: int| 0 <= n < d.drop_last().len() implies push(
        #[trigger] dialogue::replies(d.drop_last()).take(n),
    ) == Run::<Seq<char>>::Asks(d.drop_last()[n].request) by {
        assert(dialogue::replies(d.drop_last()).take(n) =~= all.take(n));
    }
    assert(whole(all.take(m)) == Run::<WorkStateView>::Asks(d[m].request));
    assert(end[0] == d[m].reply);
}

/// A push that may be due: where one is planned, the clock is read. Once the planned time has
/// come, the work is shown, everything is pushed, and the work is shown again.
pub open spec fn is_push_if_due(
    d: Seq<Turn>,
    before: WorkStateView,
    after: WorkStateView,
    r: Round,
) -> bool {
    match before.push_deadline {
        Some(deadline) => {
            &&& d.len() >= 1
            &&& d[0].request == RequestView::Monotonic
            &&& d[0].reply matches Reply::Monotonic(now) && if now >= deadline {
                &&& 1 <= r.announced <= r.pushed <= d.len()
                &&& is_screen(
                    d.subrange(1, r.announced),
                    "Pushing changes..."@,
                    Some(deadline),
                    r.announcement,
                )
                &&& is_pushed(d.subrange(r.announced, r.pushed), after, r.push)
                &&& is_screen(d.skip(r.pushed), after.message, after.push_deadline, r.outcome)
            } else {
                d.len() == 1 && after == before
            }
        },
        None => d.len() == 0 && after == before,
    }
}

/// The parts of a turn of the watch.
pub struct Round {
    /// The state after the wait for changes, the end of what that took, and its screen.
    pub seen: WorkStateView,
    pub noticed: int,
    pub screen: Screen,
    /// The end of what it took to announce a push and to push, with the screens before and
    /// after it.
    pub announced: int,
    pub announcement: Screen,
    pub pushed: int,
    pub push: Pushed,
    pub outcome: Screen,
}

#[verifier::spinoff_prover]
proof fn lemma_push_and_show(d: Seq<Turn>, after: WorkStateView) -> (at: (int, Pushed, Screen))
    requires
        dialogue::succeeds(|log: Seq<Reply>| work::push_and_show_run(log), d, after),
    ensures
        0 <= at.0 <= d.len(),
        is_pushed(d.take(at.0), after, at.1),
        is_screen(d.skip(at.0), after.message, after.push_deadline, at.2),
{
    let first = |log: Seq<Reply>| work::push_once_run(log);
    assert forall|log: Seq<Reply>, more: Seq<Reply>| #[trigger]
        replay::replays(first, log, more) by {
        replay::lemma_push_once(log, more);
    }
    let cut = dialogue::lemma_split(
        |log: Seq<Reply>| work::push_and_show_run(log),
        first,
        |state: WorkStateView, log: Seq<Reply>| work::shown_run(state, log),
        d,
        after,
    );
    let pushed = lemma_pushed(d.take(cut.0), cut.1);
    let screen = lemma_shown(d.skip(cut.0), cut.1, after);
    (cut.0, pushed, screen)
}

#[verifier::spinoff_prover]
proof fn lemma_push_now(d: Seq<Turn>, push_deadline: Option<u128>, after: WorkStateView) -> (at: (
    int,
    Screen,
    int,
    Pushed,
    Screen,
))
    requires
        dialogue::succeeds(|log: Seq<Reply>| work::push_now_run(push_deadline, log), d, after),
    ensures
        0 <= at.0 <= at.2 <= d.len(),
        is_screen(d.take(at.0), "Pushing changes..."@, push_deadline, at.1),
        is_pushed(d.subrange(at.0, at.2), after, at.3),
        is_screen(d.skip(at.2), after.message, after.push_deadline, at.4),
{
    let first = |log: Seq<Reply>|
        work::render_work_status_run("Pushing changes..."@, push_deadline, log);
    assert forall|log: Seq<Reply>, more: Seq<Reply>| #[trigger]
        replay::replays(first, log, more) by {
        replay::lemma_work_status("Pushing changes..."@, push_deadline, log, more);
    }
    let cut = dialogue::lemma_split(
        |log: Seq<Reply>| work::push_now_run(push_deadline, log),
        first,
        |_done: (), log: Seq<Reply>| work::push_and_show_run(log),
        d,
        after,
    );
    let n = cut.0;
    let announcement = law_screen_transcript(d.take(n), "Pushing changes..."@, push_deadline);
    let tail = d.skip(n);
    let at = lemma_push_and_show(tail, after);
    assert(tail.take(at.0) =~= d.subrange(n, n + at.0));
    assert(tail.skip(at.0) =~= d.skip(n + at.0));
    (n, announcement, n + at.0, at.1, at.2)
}

#[verifier::spinoff_prover]
proof fn lemma_due(d: Seq<Turn>, push_deadline: Option<u128>, due: bool)
    requires
        dialogue::succeeds(|log: Seq<Reply>| work::is_due_run(push_deadline, log), d, due),
    ensures
        match push_deadline {
            Some(deadline) => d.len() == 1 && d[0].request == RequestView::Monotonic && (
            d[0].reply matches Reply::Monotonic(now) && due == (now >= deadline)),
            None => d.len() == 0 && !due,
        },
{
    dialogue::lemma_replies();
    transcripts::lemma_steps(|log: Seq<Reply>| work::is_due_run(push_deadline, log), d, due);
}

#[verifier::spinoff_prover]
proof fn lemma_push_if_due(d: Seq<Turn>, before: WorkStateView, after: WorkStateView) -> (r: Round)
    requires
        dialogue::succeeds(
            |log: Seq<Reply>| work::push_if_due_run(before, log),
            d,
            after,
        ),
    ensures
        is_push_if_due(d, before, after, r),
{
    let first = |log: Seq<Reply>| work::is_due_run(before.push_deadline, log);
    assert forall|log: Seq<Reply>, more: Seq<Reply>| #[trigger]
        replay::replays(first, log, more) by {
        replay::lemma_due(before.push_deadline, log, more);
    }
    let next = |due: bool, log: Seq<Reply>|
        if due {
            work::push_now_run(before.push_deadline, log)
        } else {
            Run::Done(before, log)
        };
    let cut = dialogue::lemma_split(
        |log: Seq<Reply>| work::push_if_due_run(before, log),
        first,
        next,
        d,
        after,
    );
    let due = cut.1;
    let front = d.take(cut.0);
    lemma_due(front, before.push_deadline, due);
    let tail = d.skip(cut.0);
    let then = |log: Seq<Reply>| next(due, log);
    if due {
        assert(front[0] == d[0]);
        let same = |log: Seq<Reply>| work::push_now_run(before.push_deadline, log);
        dialogue::lemma_same(then, same, tail, after);
        let at = lemma_push_now(tail, before.push_deadline, after);
        assert(tail.take(at.0) =~= d.subrange(1, 1 + at.0));
        assert(tail.subrange(at.0, at.2) =~= d.subrange(1 + at.0, 1 + at.2));
        assert(tail.skip(at.2) =~= d.skip(1 + at.2));
        Round {
            seen: before,
            noticed: 0,
            screen: at.1,
            announced: 1 + at.0,
            announcement: at.1,
            pushed: 1 + at.2,
            push: at.3,
            outcome: at.4,
        }
    } else {
        let same = |log: Seq<Reply>| Run::Done(before, log);
        dialogue::lemma_same(then, same, tail, after);
        lemma_nothing(tail, before, after);
        if before.push_deadline is Some {
            assert(front[0] == d[0]);
        }
        arbitrary()
    }
}

proof fn lemma_nothing(d: Seq<Turn>, before: WorkStateView, after: WorkStateView)
    requires
        dialogue::succeeds(|log: Seq<Reply>| Run::Done(before, log), d, after),
    ensures
        d.len() == 0,
        after == before,
{
    dialogue::lemma_replies();
    transcripts::lemma_steps(|log: Seq<Reply>| Run::Done(before, log), d, after);
}

#[verifier::spinoff_prover]
proof fn lemma_turn(d: Seq<Turn>, change: Change, before: WorkStateView, after: WorkStateView) -> (r:
    Round)
    requires
        dialogue::succeeds(
            |log: Seq<Reply>| work::turn_run(before, change, log),
            d,
            after,
        ),
    ensures
        0 <= r.noticed <= d.len(),
        is_change_noticed(d.take(r.noticed), change, before, r.seen, r.screen),
        is_push_if_due(d.skip(r.noticed), r.seen, after, r),
{
    let first = |log: Seq<Reply>| work::after_change_run(before, change, log);
    assert forall|log: Seq<Reply>, more: Seq<Reply>| #[trigger]
        replay::replays(first, log, more) by {
        replay::lemma_after_change(before, change, log, more);
    }
    let cut = dialogue::lemma_split(
        |log: Seq<Reply>| work::turn_run(before, change, log),
        first,
        |state: WorkStateView, log: Seq<Reply>| work::push_if_due_run(state, log),
        d,
        after,
    );
    let screen = lemma_change_noticed(d.take(cut.0), change, before, cut.1);
    let r = lemma_push_if_due(d.skip(cut.0), cut.1, after);
    Round { seen: cut.1, noticed: cut.0, screen, ..r }
}

#[verifier::spinoff_prover]
proof fn lemma_wait(d: Seq<Turn>, before: WorkStateView, stage: LoopStageView) -> (r: Round)
    requires
        dialogue::succeeds(|log: Seq<Reply>| work::wait_run(before, log), d, stage),
    ensures
        d.len() >= 1,
        d[0].request == RequestView::AwaitChange,
        d[0].reply matches Reply::Change(change) && stage matches LoopStageView::Watching(after)
            && {
            &&& 0 <= r.noticed <= d.len() - 1
            &&& is_change_noticed(
                d.skip(1).take(r.noticed),
                change,
                before,
                r.seen,
                r.screen,
            )
            &&& is_push_if_due(d.skip(1).skip(r.noticed), r.seen, after, r)
        },
{
    let first = |log: Seq<Reply>| ask::change_run(log);
    assert forall|log: Seq<Reply>, more: Seq<Reply>| #[trigger]
        replay::replays(first, log, more) by {
        replay::lemma_log();
    }
    let last = |state: WorkStateView, log: Seq<Reply>|
        Run::Done(LoopStageView::Watching(state), log);
    let next = |change: Change, log: Seq<Reply>|
        work::turn_run(before, change, log).and_then(last);
    let cut = dialogue::lemma_split(
        |log: Seq<Reply>| work::wait_run(before, log),
        first,
        next,
        d,
        stage,
    );
    let change = cut.1;
    let front = d.take(cut.0);
    assert(front.len() == 1 && front[0].request == RequestView::AwaitChange && front[0].reply
        == Reply::Change(change)) by {
        dialogue::lemma_replies();
        transcripts::lemma_steps(first, front, change);
    }
    assert(front[0] == d[0]);
    let second = |log: Seq<Reply>| work::turn_run(before, change, log);
    assert forall|log: Seq<Reply>, more: Seq<Reply>| #[trigger]
        replay::replays(second, log, more) by {
        replay::lemma_turn(before, change, log, more);
    }
    let after = dialogue::lemma_mapped(
        |log: Seq<Reply>| next(change, log),
        second,
        last,
        d.skip(1),
        stage,
    );
    lemma_turn(d.skip(1), change, before, after)
}

/// A turn of the watch. After Ctrl+C it is the last, which is shown. Else it waits for
/// changes, and pushes what has been quiet for five minutes.
pub open spec fn is_watch_turn(
    d: Seq<Turn>,
    before: WorkStateView,
    stage: LoopStageView,
    r: Round,
) -> bool {
    &&& d.len() >= 1
    &&& d[0].request == RequestView::StillRunning
    &&& d[0].reply matches Reply::Running(running) && if running {
        &&& d.len() >= 2
        &&& d[1].request == RequestView::AwaitChange
        &&& d[1].reply matches Reply::Change(change) && stage matches LoopStageView::Watching(
            after,
        ) && {
            &&& 2 <= r.noticed <= d.len()
            &&& is_change_noticed(d.subrange(2, r.noticed), change, before, r.seen, r.screen)
            &&& is_push_if_due(d.skip(r.noticed), r.seen, after, r)
        }
    } else {
        &&& stage is Finished
        &&& is_screen(
            d.skip(1),
            "Stopping. Unclaiming session..."@,
            before.push_deadline,
            r.screen,
        )
    }
}

/// Whenever a turn of the watch is over, it is one of these: the last one, after Ctrl+C, or
/// one that waited for changes. A push took place if and only if one was planned and its time
/// had come by the clock.
#[verifier::spinoff_prover]
pub proof fn law_watch_turn(d: Seq<Turn>, before: WorkStateView, stage: LoopStageView) -> (r: Round)
    requires
        dialogue::succeeds(
            |log: Seq<Reply>| work::run_work_loop_run(LoopStageView::Watching(before), log),
            d,
            stage,
        ),
    ensures
        is_watch_turn(d, before, stage, r),
{
    let first = |log: Seq<Reply>| ask::still_running_run(log);
    assert forall|log: Seq<Reply>, more: Seq<Reply>| #[trigger]
        replay::replays(first, log, more) by {
        replay::lemma_log();
    }
    let next = |running: bool, log: Seq<Reply>|
        if running {
            work::wait_run(before, log)
        } else {
            work::stop_run(before.push_deadline, log)
        };
    let cut = dialogue::lemma_split(
        |log: Seq<Reply>| work::run_work_loop_run(LoopStageView::Watching(before), log),
        first,
        next,
        d,
        stage,
    );
    let running = cut.1;
    let front = d.take(cut.0);
    assert(front.len() == 1 && front[0].request == RequestView::StillRunning && front[0].reply
        == Reply::Running(running)) by {
        dialogue::lemma_replies();
        transcripts::lemma_steps(first, front, running);
    }
    assert(front[0] == d[0]);
    let tail = d.skip(1);
    let then = |log: Seq<Reply>| next(running, log);
    if running {
        let same = |log: Seq<Reply>| work::wait_run(before, log);
        dialogue::lemma_same(then, same, tail, stage);
        let r = lemma_wait(tail, before, stage);
        assert(tail[0] == d[1]);
        assert(tail.skip(1).take(r.noticed) =~= d.subrange(2, 2 + r.noticed));
        assert(tail.skip(1).skip(r.noticed) =~= d.skip(2 + r.noticed));
        Round { noticed: 2 + r.noticed, ..r }
    } else {
        let same = |log: Seq<Reply>| work::stop_run(before.push_deadline, log);
        dialogue::lemma_same(then, same, tail, stage);
        let screen = lemma_stopped(tail, before.push_deadline, stage);
        let r: Round = arbitrary();
        Round { screen, ..r }
    }
}

#[verifier::spinoff_prover]
proof fn lemma_stopped(d: Seq<Turn>, push_deadline: Option<u128>, stage: LoopStageView) -> (screen:
    Screen)
    requires
        dialogue::succeeds(|log: Seq<Reply>| work::stop_run(push_deadline, log), d, stage),
    ensures
        stage is Finished,
        is_screen(d, "Stopping. Unclaiming session..."@, push_deadline, screen),
{
    let message = "Stopping. Unclaiming session..."@;
    let first = |log: Seq<Reply>| work::render_work_status_run(message, push_deadline, log);
    assert forall|log: Seq<Reply>, more: Seq<Reply>| #[trigger]
        replay::replays(first, log, more) by {
        replay::lemma_work_status(message, push_deadline, log, more);
    }
    let done = dialogue::lemma_mapped(
        |log: Seq<Reply>| work::stop_run(push_deadline, log),
        first,
        |_done: (), log: Seq<Reply>| Run::Done(LoopStageView::Finished, log),
        d,
        stage,
    );
    law_screen_transcript(d, message, push_deadline)
}

/// The watch fails where one of its preparations fails, and the user is told which and why.
pub proof fn law_watch_needs_its_preparations(done: nat, error: String, rest: Seq<Reply>)
    requires
        done < 4,
    ensures
        ({
            let outcomes = Seq::new(done, |i: int| Reply::Outcome(Ok(())));
            let log = outcomes + seq![Reply::Outcome(Err(error))] + rest;
            work::run_work_loop_run(LoopStageView::Starting, log) == Run::<
                LoopStageView,
            >::Failed(
                (if done == 0 {
                    "Failed to install Ctrl+C handler: "@
                } else if done == 1 {
                    "Failed to create filesystem watcher: "@
                } else if done == 2 {
                    "Failed to read cwd: "@
                } else {
                    "Failed to watch working directory: "@
                }) + error@,
                rest,
            )
        }),
{
    let outcomes = Seq::new(done, |i: int| Reply::Outcome(Ok(())));
    let log = outcomes + seq![Reply::Outcome(Err(error))] + rest;
    assert(log.skip(1).len() + 1 == log.len());
    assert(log[done as int] == Reply::Outcome(Err(error)));
    if done == 0 {
        assert(log.skip(1) =~= rest);
    } else if done == 1 {
        assert(log.skip(1).skip(1) =~= rest);
    } else if done == 2 {
        assert(log.skip(1).skip(1).skip(1) =~= rest);
    } else {
        assert(log.skip(1).skip(1).skip(1).skip(1) =~= rest);
    }
}

/// The watch fails where its watcher stops.
pub proof fn law_watch_needs_its_watcher(state: WorkStateView, rest: Seq<Reply>)
    ensures
        work::run_work_loop_run(
            LoopStageView::Watching(state),
            seq![Reply::Running(true), Reply::Change(Change::Disconnected)] + rest,
        ) == Run::<LoopStageView>::Failed("Filesystem watcher stopped unexpectedly."@, rest),
{
    let log = seq![Reply::Running(true), Reply::Change(Change::Disconnected)] + rest;
    assert(log.skip(1).skip(1) =~= rest);
    assert(log.skip(1)[0] == Reply::Change(Change::Disconnected));
}

/// The stages of work that are about the watch do what the watch does: its end leads to the
/// claim being given back, and so does its failure, which is kept.
pub proof fn law_work_follows_the_watch(
    session_name: Option<Seq<char>>,
    stage: LoopStageView,
    log: Seq<Reply>,
)
    ensures
        ({
            let worked = work::work_session_run(session_name, WorkStageView::Looping(stage), log);
            match work::run_work_loop_run(stage, log) {
                Run::Done(next, rest) => worked == Run::Done(
                    if next is Finished {
                        WorkStageView::Leaving(None)
                    } else {
                        WorkStageView::Looping(next)
                    },
                    rest,
                ),
                Run::Failed(error, rest) => worked == Run::Done(
                    WorkStageView::Leaving(Some(error)),
                    rest,
                ),
                Run::Asks(request) => worked == Run::<WorkStageView>::Asks(request),
            }
        }),
{
}

} // verus!
