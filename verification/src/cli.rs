//! The commands of the program, each up to what it prints and how it ends.

use crate::exchange::{Log, Reply, Request, RequestView, Run, Stop};
use crate::status;
use crate::work;
use crate::work::{WorkStage, WorkStageView};
use crate::workflow;
use vstd::prelude::*;

verus! {

/// How a command ends.
#[derive(Debug, PartialEq, Eq)]
pub enum Report {
    /// It succeeds; the text goes to standard output.
    Success(String),
    /// It fails; the text goes to standard error.
    Failure(String),
}

#[verifier::ext_equal]
pub enum ReportView {
    Success(Seq<char>),
    Failure(Seq<char>),
}

impl View for Report {
    type V = ReportView;

    open spec fn view(&self) -> ReportView {
        match self {
            Report::Success(text) => ReportView::Success(text@),
            Report::Failure(text) => ReportView::Failure(text@),
        }
    }
}

/// What a command makes of a log: its end, or a request that the log does not answer.
pub open spec fn outcome(result: Result<Report, Request>) -> Result<ReportView, RequestView> {
    match result {
        Ok(report) => Ok(report@),
        Err(request) => Err(request@),
    }
}

/// The end of a command whose result is printed by `show`. A failure is its message, on a
/// line of its own.
pub open spec fn reported<A>(run: Run<A>, show: spec_fn(A) -> Seq<char>) -> Result<
    ReportView,
    RequestView,
> {
    match run {
        Run::Done(value, _) => Ok(ReportView::Success(show(value))),
        Run::Failed(message, _) => Ok(ReportView::Failure(message + "\n"@)),
        Run::Asks(request) => Err(request),
    }
}

fn report_failure(message: String) -> (report: Report)
    ensures
        report@ == ReportView::Failure(message@ + "\n"@),
{
    Report::Failure(message.concat("\n"))
}

/// Prints all sessions.
pub fn list(log: &mut Log) -> (result: Result<Report, Request>)
    ensures
        outcome(result) == reported(
            status::render_all_sessions_run(old(log)@),
            |page: Seq<char>| page,
        ),
{
    match status::render_all_sessions(log) {
        Ok(output) => Ok(Report::Success(output)),
        Err(Stop::Fail(message)) => Ok(report_failure(message)),
        Err(Stop::Ask(request)) => Err(request),
    }
}

/// Checks out a session.
pub fn checkout(log: &mut Log, session_name: &str) -> (result: Result<Report, Request>)
    ensures
        outcome(result) == reported(
            workflow::checkout_session_run(session_name@, old(log)@),
            |_done: ()| "Checked out JIST session `"@ + session_name@ + "`.\n"@,
        ),
{
    match workflow::checkout_session(log, session_name) {
        Ok(_) => Ok(
            Report::Success(
                "Checked out JIST session `".to_owned().concat(session_name).concat("`.\n"),
            ),
        ),
        Err(Stop::Fail(message)) => Ok(report_failure(message)),
        Err(Stop::Ask(request)) => Err(request),
    }
}

/// Deletes a session.
pub fn delete(log: &mut Log, session_name: &str) -> (result: Result<Report, Request>)
    ensures
        outcome(result) == reported(
            workflow::delete_session_run(session_name@, old(log)@),
            |_done: ()| "Deleted JIST session `"@ + session_name@ + "`.\n"@,
        ),
{
    match workflow::delete_session(log, session_name) {
        Ok(_) => Ok(
            Report::Success(
                "Deleted JIST session `".to_owned().concat(session_name).concat("`.\n"),
            ),
        ),
        Err(Stop::Fail(message)) => Ok(report_failure(message)),
        Err(Stop::Ask(request)) => Err(request),
    }
}

/// How far the work on a session has come: at another stage, or at its end.
#[derive(Debug, PartialEq, Eq)]
pub enum WorkProgress {
    Stage(WorkStage),
    Ended(Report),
}

#[verifier::ext_equal]
pub enum WorkProgressView {
    Stage(WorkStageView),
    Ended(ReportView),
}

impl View for WorkProgress {
    type V = WorkProgressView;

    open spec fn view(&self) -> WorkProgressView {
        match self {
            WorkProgress::Stage(stage) => WorkProgressView::Stage(stage@),
            WorkProgress::Ended(report) => WorkProgressView::Ended(report@),
        }
    }
}

pub open spec fn work_outcome(result: Result<WorkProgress, Request>) -> Result<
    WorkProgressView,
    RequestView,
> {
    match result {
        Ok(progress) => Ok(progress@),
        Err(request) => Err(request@),
    }
}

/// The progress after a stage of the work. The end of it prints nothing.
pub open spec fn work_progress(run: Run<WorkStageView>) -> Result<WorkProgressView, RequestView> {
    match run {
        Run::Done(WorkStageView::Finished, _) => Ok(
            WorkProgressView::Ended(ReportView::Success(Seq::empty())),
        ),
        Run::Done(stage, _) => Ok(WorkProgressView::Stage(stage)),
        Run::Failed(message, _) => Ok(
            WorkProgressView::Ended(ReportView::Failure(message + "\n"@)),
        ),
        Run::Asks(request) => Err(request),
    }
}

/// Takes the work on a session one stage further. Every stage starts with a log of its own.
pub fn work(log: &mut Log, session_name: Option<&str>, stage: &WorkStage) -> (result: Result<
    WorkProgress,
    Request,
>)
    ensures
        work_outcome(result) == work_progress(
            work::work_session_run(session_name.deep_view(), stage@, old(log)@),
        ),
{
    match work::work_session(log, session_name, stage) {
        Ok(WorkStage::Finished) => Ok(WorkProgress::Ended(Report::Success(String::new()))),
        Ok(stage) => Ok(WorkProgress::Stage(stage)),
        Err(Stop::Fail(message)) => Ok(WorkProgress::Ended(report_failure(message))),
        Err(Stop::Ask(request)) => Err(request),
    }
}

/// Gives up the claim of the session that is checked out.
pub fn unclaim(log: &mut Log) -> (result: Result<Report, Request>)
    ensures
        outcome(result) == reported(
            workflow::unclaim_session_run(old(log)@),
            |session: Seq<char>| "Unclaimed session "@ + session + ".\n"@,
        ),
{
    match workflow::unclaim_session(log) {
        Ok(session) => Ok(
            Report::Success(
                "Unclaimed session ".to_owned().concat(session.as_str()).concat(".\n"),
            ),
        ),
        Err(Stop::Fail(message)) => Ok(report_failure(message)),
        Err(Stop::Ask(request)) => Err(request),
    }
}

/// Pushes the changes to the session that is checked out.
pub fn push(log: &mut Log) -> (result: Result<Report, Request>)
    ensures
        outcome(result) == reported(
            workflow::push_session_run(old(log)@),
            |session: Seq<char>| "Pushed JIST session `"@ + session + "`.\n"@,
        ),
{
    match workflow::push_session(log) {
        Ok(session) => Ok(
            Report::Success(
                "Pushed JIST session `".to_owned().concat(session.as_str()).concat("`.\n"),
            ),
        ),
        Err(Stop::Fail(message)) => Ok(report_failure(message)),
        Err(Stop::Ask(request)) => Err(request),
    }
}

/// Claims the session that is checked out.
pub fn claim(log: &mut Log) -> (result: Result<Report, Request>)
    ensures
        outcome(result) == reported(
            workflow::claim_session_run(old(log)@),
            |session: Seq<char>| "Claimed JIST session `"@ + session + "`.\n"@,
        ),
{
    match workflow::claim_session(log) {
        Ok(session) => Ok(
            Report::Success(
                "Claimed JIST session `".to_owned().concat(session.as_str()).concat("`.\n"),
            ),
        ),
        Err(Stop::Fail(message)) => Ok(report_failure(message)),
        Err(Stop::Ask(request)) => Err(request),
    }
}

/// Prints where the user stands.
pub fn status(log: &mut Log) -> (result: Result<Report, Request>)
    ensures
        outcome(result) == reported(
            status::render_status_run(old(log)@),
            |page: Seq<char>| page,
        ),
{
    match status::render_status(log) {
        Ok(output) => Ok(Report::Success(output)),
        Err(Stop::Fail(message)) => Ok(report_failure(message)),
        Err(Stop::Ask(request)) => Err(request),
    }
}

/// Creates a session, if there is none of that name, and checks it out.
pub fn session(log: &mut Log, session_name: &str) -> (result: Result<Report, Request>)
    ensures
        outcome(result) == reported(
            workflow::start_jist_session_run(session_name@, old(log)@),
            |commit: Seq<char>|
                "Checked out JIST session `"@ + session_name@ + "` at `"@ + commit + "`.\n"@,
        ),
{
    match workflow::start_jist_session(log, session_name) {
        Ok(commit) => Ok(
            Report::Success(
                "Checked out JIST session `".to_owned().concat(session_name).concat(
                    "` at `",
                ).concat(commit.as_str()).concat("`.\n"),
            ),
        ),
        Err(Stop::Fail(message)) => Ok(report_failure(message)),
        Err(Stop::Ask(request)) => Err(request),
    }
}

} // verus!
