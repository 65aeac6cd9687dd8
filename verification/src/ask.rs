//! The requests that are not commands: the environment, the clocks, the terminal and files.

use crate::exchange::{Change, ClockReading, Log, Reply, Request, RequestView, Run, Stop};
use vstd::prelude::*;

verus! {

impl DeepView for ClockReading {
    type V = ClockReading;

    open spec fn deep_view(&self) -> ClockReading {
        *self
    }
}

impl DeepView for Change {
    type V = Change;

    open spec fn deep_view(&self) -> Change {
        *self
    }
}

pub open spec fn variable_run(name: Seq<char>, log: Seq<Reply>) -> Run<Option<Seq<char>>> {
    if log.len() > 0 && log[0] is Variable {
        Run::Done(log[0]->Variable_0.deep_view(), log.skip(1))
    } else {
        Run::Asks(RequestView::Variable(name))
    }
}

/// Reads an environment variable.
pub fn variable(log: &mut Log, name: &str) -> (result: Result<Option<String>, Stop>)
    ensures
        Run::of(result, final(log)@) == variable_run(name@, old(log)@),
{
    match log.peek() {
        Some(Reply::Variable(Some(value))) => {
            log.advance();
            Ok(Some(value.clone()))
        },
        Some(Reply::Variable(None)) => {
            log.advance();
            Ok(None)
        },
        _ => Err(Stop::Ask(Request::Variable(name.to_owned()))),
    }
}

pub open spec fn clock_run(log: Seq<Reply>) -> Run<ClockReading> {
    if log.len() > 0 && log[0] is Clock {
        Run::Done(log[0]->Clock_0, log.skip(1))
    } else {
        Run::Asks(RequestView::Clock)
    }
}

/// Reads the wall clock.
pub fn clock<'a>(log: &mut Log<'a>) -> (result: Result<&'a ClockReading, Stop>)
    ensures
        Run::of(result, final(log)@) == clock_run(old(log)@),
{
    match log.peek() {
        Some(Reply::Clock(reading)) => {
            log.advance();
            Ok(reading)
        },
        _ => Err(Stop::Ask(Request::Clock)),
    }
}

pub open spec fn monotonic_run(log: Seq<Reply>) -> Run<u64> {
    if log.len() > 0 && log[0] is Monotonic {
        Run::Done(log[0]->Monotonic_0, log.skip(1))
    } else {
        Run::Asks(RequestView::Monotonic)
    }
}

/// Reads the monotonic clock, in nanoseconds.
pub fn monotonic(log: &mut Log) -> (result: Result<u64, Stop>)
    ensures
        Run::of(result, final(log)@) == monotonic_run(old(log)@),
{
    match log.peek() {
        Some(Reply::Monotonic(nanoseconds)) => {
            log.advance();
            Ok(*nanoseconds)
        },
        _ => Err(Stop::Ask(Request::Monotonic)),
    }
}

pub open spec fn process_id_run(log: Seq<Reply>) -> Run<u32> {
    if log.len() > 0 && log[0] is Process {
        Run::Done(log[0]->Process_0, log.skip(1))
    } else {
        Run::Asks(RequestView::ProcessId)
    }
}

/// Finds the number of this process.
pub fn process_id(log: &mut Log) -> (result: Result<u32, Stop>)
    ensures
        Run::of(result, final(log)@) == process_id_run(old(log)@),
{
    match log.peek() {
        Some(Reply::Process(id)) => {
            log.advance();
            Ok(*id)
        },
        _ => Err(Stop::Ask(Request::ProcessId)),
    }
}

pub open spec fn temp_path_run(name: Seq<char>, log: Seq<Reply>) -> Run<Seq<char>> {
    if log.len() > 0 && log[0] is Path {
        Run::Done(log[0]->Path_0@, log.skip(1))
    } else {
        Run::Asks(RequestView::TempPath(name))
    }
}

/// Finds the path of a file in the temporary directory.
pub fn temp_path(log: &mut Log, name: &str) -> (result: Result<String, Stop>)
    ensures
        Run::of(result, final(log)@) == temp_path_run(name@, old(log)@),
{
    match log.peek() {
        Some(Reply::Path(path)) => {
            log.advance();
            Ok(path.clone())
        },
        _ => Err(Stop::Ask(Request::TempPath(name.to_owned()))),
    }
}

pub open spec fn still_running_run(log: Seq<Reply>) -> Run<bool> {
    if log.len() > 0 && log[0] is Running {
        Run::Done(log[0]->Running_0, log.skip(1))
    } else {
        Run::Asks(RequestView::StillRunning)
    }
}

/// Asks whether no Ctrl+C was pressed so far.
pub fn still_running(log: &mut Log) -> (result: Result<bool, Stop>)
    ensures
        Run::of(result, final(log)@) == still_running_run(old(log)@),
{
    match log.peek() {
        Some(Reply::Running(running)) => {
            log.advance();
            Ok(*running)
        },
        _ => Err(Stop::Ask(Request::StillRunning)),
    }
}

pub open spec fn change_run(log: Seq<Reply>) -> Run<Change> {
    if log.len() > 0 && log[0] is Change {
        Run::Done(log[0]->Change_0, log.skip(1))
    } else {
        Run::Asks(RequestView::AwaitChange)
    }
}

/// Waits up to a second for a change in the working directory.
pub fn change<'a>(log: &mut Log<'a>) -> (result: Result<&'a Change, Stop>)
    ensures
        Run::of(result, final(log)@) == change_run(old(log)@),
{
    match log.peek() {
        Some(Reply::Change(change)) => {
            log.advance();
            Ok(change)
        },
        _ => Err(Stop::Ask(Request::AwaitChange)),
    }
}

/// The run of an action whose failure is reported as `failure` and the reason.
pub open spec fn action_run(request: RequestView, failure: Seq<char>, log: Seq<Reply>) -> Run<()> {
    if log.len() > 0 && log[0] is Outcome {
        match log[0]->Outcome_0 {
            Ok(_) => Run::Done((), log.skip(1)),
            Err(error) => Run::Failed(failure + error@, log.skip(1)),
        }
    } else {
        Run::Asks(request)
    }
}

/// Performs an action whose failure is reported as `failure` and the reason.
pub fn action(log: &mut Log, request: Request, failure: &str) -> (result: Result<(), Stop>)
    ensures
        Run::of(result, final(log)@) == action_run(request@, failure@, old(log)@),
{
    match log.peek() {
        Some(Reply::Outcome(Ok(_))) => {
            log.advance();
            Ok(())
        },
        Some(Reply::Outcome(Err(error))) => {
            log.advance();
            Err(Stop::Fail(failure.to_owned().concat(error.as_str())))
        },
        _ => Err(Stop::Ask(request)),
    }
}

/// The run of an action whose failure does not matter.
pub open spec fn attempt_run(request: RequestView, log: Seq<Reply>) -> Run<()> {
    if log.len() > 0 && log[0] is Outcome {
        Run::Done((), log.skip(1))
    } else {
        Run::Asks(request)
    }
}

/// Performs an action whose failure does not matter.
pub fn attempt(log: &mut Log, request: Request) -> (result: Result<(), Stop>)
    ensures
        Run::of(result, final(log)@) == attempt_run(request@, old(log)@),
{
    match log.peek() {
        Some(Reply::Outcome(_)) => {
            log.advance();
            Ok(())
        },
        _ => Err(Stop::Ask(request)),
    }
}

pub open spec fn read_line_run(failure: Seq<char>, log: Seq<Reply>) -> Run<Seq<char>> {
    if log.len() > 0 && log[0] is Line {
        match log[0]->Line_0 {
            Ok(line) => Run::Done(line@, log.skip(1)),
            Err(error) => Run::Failed(failure + error@, log.skip(1)),
        }
    } else {
        Run::Asks(RequestView::ReadLine)
    }
}

/// Reads a line from standard input; a failure is reported as `failure` and the reason.
pub fn read_line(log: &mut Log, failure: &str) -> (result: Result<String, Stop>)
    ensures
        Run::of(result, final(log)@) == read_line_run(failure@, old(log)@),
{
    match log.peek() {
        Some(Reply::Line(Ok(line))) => {
            log.advance();
            Ok(line.clone())
        },
        Some(Reply::Line(Err(error))) => {
            log.advance();
            Err(Stop::Fail(failure.to_owned().concat(error.as_str())))
        },
        _ => Err(Stop::Ask(Request::ReadLine)),
    }
}

} // verus!
