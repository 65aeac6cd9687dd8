//! Running `git`, `gh` and `hostname`, and judging how they ended.

use crate::exchange;
use crate::exchange::{
    Args, CommandLine, CommandLineView, CommandReply, Finished, Log, Program, Reply, Request,
    RequestView, Run, Stop,
};
use crate::text;
use vstd::prelude::*;
use vstd::utf8;

verus! {

/// The text that `String::from_utf8_lossy` makes of bytes.
pub uninterp spec fn lossy_text(bytes: Seq<u8>) -> Seq<char>;

/// What the error of `String::from_utf8` says of bytes that are not UTF-8.
pub uninterp spec fn utf8_error(bytes: Seq<u8>) -> Seq<char>;

/// `String::from_utf8_lossy`: a function of the bytes alone. Bytes that are UTF-8 become the
/// text that they encode.
#[verifier::external_body]
fn from_utf8_lossy(bytes: &Vec<u8>) -> (text: String)
    ensures
        text@ == lossy_text(bytes@),
        utf8::valid_utf8(bytes@) ==> text@ == utf8::decode_utf8(bytes@),
{
    String::from_utf8_lossy(bytes).into_owned()
}

/// `String::from_utf8`, with its error in words: it succeeds exactly on UTF-8 and then gives
/// the text that the bytes encode. The words of the error are a function of the bytes alone.
#[verifier::external_body]
fn from_utf8(bytes: &Vec<u8>) -> (result: Result<String, String>)
    ensures
        match result {
            Ok(text) => utf8::valid_utf8(bytes@) && text@ == utf8::decode_utf8(bytes@),
            Err(error) => !utf8::valid_utf8(bytes@) && error@ == utf8_error(bytes@),
        },
{
    String::from_utf8(bytes.clone()).map_err(|error| error.to_string())
}

impl DeepView for CommandReply {
    type V = CommandReply;

    open spec fn deep_view(&self) -> CommandReply {
        *self
    }
}

/// What is read off the output of a command that ended: the trimmed output if it succeeded
/// with UTF-8, else the trimmed error output, or `default_message` where that is blank.
pub open spec fn output_result(default_message: Seq<char>, output: Finished) -> Result<
    Seq<char>,
    Seq<char>,
> {
    if !output.success {
        let message = text::trimmed(lossy_text(output.stderr@));
        Err(if message.len() == 0 { default_message } else { message })
    } else if utf8::valid_utf8(output.stdout@) {
        Ok(text::trimmed(utf8::decode_utf8(output.stdout@)))
    } else {
        Err("Command returned non-UTF-8 output: "@ + utf8_error(output.stdout@))
    }
}

pub fn command_output(default_message: &str, output: &Finished) -> (result: Result<String, String>)
    ensures
        match result {
            Ok(value) => output_result(default_message@, *output) == Ok::<Seq<char>, Seq<char>>(
                value@,
            ),
            Err(message) => output_result(default_message@, *output) == Err::<
                Seq<char>,
                Seq<char>,
            >(message@),
        },
{
    if !output.success {
        let lossy = from_utf8_lossy(&output.stderr);
        let message = text::trim(lossy.as_str());
        return Err(
            if message.is_empty() {
                default_message.to_owned()
            } else {
                message.to_owned()
            },
        );
    }
    match from_utf8(&output.stdout) {
        Ok(stdout) => Ok(text::trim(stdout.as_str()).to_owned()),
        Err(error) => Err(
            "Command returned non-UTF-8 output: ".to_owned().concat(error.as_str()),
        ),
    }
}

/// The run of a command, up to how it went.
pub open spec fn command_run(line: CommandLineView, log: Seq<Reply>) -> Run<CommandReply> {
    if log.len() > 0 && log[0] is Command {
        Run::Done(log[0]->Command_0, log.skip(1))
    } else {
        Run::Asks(RequestView::Command(line))
    }
}

/// Runs a command, up to how it went.
pub fn command<'a>(log: &mut Log<'a>, line: CommandLine) -> (result: Result<&'a CommandReply, Stop>)
    ensures
        Run::of(result, final(log)@) == command_run(line@, old(log)@),
{
    match log.peek() {
        Some(Reply::Command(reply)) => {
            log.advance();
            Ok(reply)
        },
        _ => Err(Stop::Ask(Request::Command(line))),
    }
}

pub open spec fn status_result(
    not_started: Seq<char>,
    failed_with: Seq<char>,
    reply: CommandReply,
) -> Result<(), Seq<char>> {
    match reply {
        CommandReply::NotStarted(error) => Err(not_started + error@),
        CommandReply::Finished(finished) => if finished.success {
            Ok(())
        } else {
            Err(failed_with + finished.status@ + "."@)
        },
    }
}

pub open spec fn success_result(not_started: Seq<char>, reply: CommandReply) -> Result<
    bool,
    Seq<char>,
> {
    match reply {
        CommandReply::NotStarted(error) => Err(not_started + error@),
        CommandReply::Finished(finished) => Ok(finished.success),
    }
}

pub open spec fn collected_result(
    not_started: Seq<char>,
    failed: Seq<char>,
    reply: CommandReply,
) -> Result<Seq<char>, Seq<char>> {
    match reply {
        CommandReply::NotStarted(error) => Err(not_started + error@),
        CommandReply::Finished(finished) => output_result(failed, finished),
    }
}

/// A command without input of its own, whose output goes to the terminal.
pub open spec fn plain(program: Program, args: Seq<Seq<char>>) -> CommandLineView {
    CommandLineView { program, args, index_file: None, stdin: None, collect: false }
}

/// A command without input of its own, whose output is collected.
pub open spec fn collected(program: Program, args: Seq<Seq<char>>) -> CommandLineView {
    CommandLineView { program, args, index_file: None, stdin: None, collect: true }
}

/// The run of a command that has to succeed.
pub open spec fn status_run(
    line: CommandLineView,
    not_started: Seq<char>,
    failed_with: Seq<char>,
    log: Seq<Reply>,
) -> Run<()> {
    command_run(line, log).and_then(
        |reply: CommandReply, log: Seq<Reply>|
            Run::end(status_result(not_started, failed_with, reply), log),
    )
}

/// The run of a command that has to start.
pub open spec fn success_run(
    line: CommandLineView,
    not_started: Seq<char>,
    log: Seq<Reply>,
) -> Run<bool> {
    command_run(line, log).and_then(
        |reply: CommandReply, log: Seq<Reply>|
            Run::end(success_result(not_started, reply), log),
    )
}

/// The run of a command for its output.
pub open spec fn output_run(
    line: CommandLineView,
    not_started: Seq<char>,
    failed: Seq<char>,
    log: Seq<Reply>,
) -> Run<Seq<char>> {
    command_run(line, log).and_then(
        |reply: CommandReply, log: Seq<Reply>|
            Run::end(collected_result(not_started, failed, reply), log),
    )
}

fn status(log: &mut Log, line: CommandLine, not_started: &str, failed_with: &str) -> (result:
    Result<(), Stop>)
    ensures
        Run::of(result, final(log)@) == status_run(
            line@,
            not_started@,
            failed_with@,
            old(log)@,
        ),
{
    match command(log, line)? {
        CommandReply::NotStarted(error) => Err(
            Stop::Fail(not_started.to_owned().concat(error.as_str())),
        ),
        CommandReply::Finished(finished) => if finished.success {
            Ok(())
        } else {
            Err(
                Stop::Fail(
                    failed_with.to_owned().concat(finished.status.as_str()).concat("."),
                ),
            )
        },
    }
}

fn success(log: &mut Log, line: CommandLine, not_started: &str) -> (result: Result<bool, Stop>)
    ensures
        Run::of(result, final(log)@) == success_run(line@, not_started@, old(log)@),
{
    match command(log, line)? {
        CommandReply::NotStarted(error) => Err(
            Stop::Fail(not_started.to_owned().concat(error.as_str())),
        ),
        CommandReply::Finished(finished) => Ok(finished.success),
    }
}

fn output(log: &mut Log, line: CommandLine, not_started: &str, failed: &str) -> (result: Result<
    String,
    Stop,
>)
    ensures
        Run::of(result, final(log)@) == output_run(
            line@,
            not_started@,
            failed@,
            old(log)@,
        ),
{
    match command(log, line)? {
        CommandReply::NotStarted(error) => Err(
            Stop::Fail(not_started.to_owned().concat(error.as_str())),
        ),
        CommandReply::Finished(finished) => match command_output(failed, finished) {
            Ok(value) => Ok(value),
            Err(message) => Err(Stop::Fail(message)),
        },
    }
}

pub open spec fn gh_status_run(args: Seq<Seq<char>>, log: Seq<Reply>) -> Run<()> {
    status_run(
        plain(Program::Gh, args),
        "Failed to run gh: "@,
        "GitHub CLI command failed with status "@,
        log,
    )
}

/// Runs `gh` on the terminal; it has to succeed.
pub fn gh_status(log: &mut Log, args: Args) -> (result: Result<(), Stop>)
    ensures
        Run::of(result, final(log)@) == gh_status_run(args@, old(log)@),
{
    let line = CommandLine {
        program: Program::Gh,
        args,
        index_file: None,
        stdin: None,
        collect: false,
    };
    status(log, line, "Failed to run gh: ", "GitHub CLI command failed with status ")
}

pub open spec fn gh_success_run(args: Seq<Seq<char>>, log: Seq<Reply>) -> Run<bool> {
    success_run(plain(Program::Gh, args), "Failed to run gh: "@, log)
}

/// Runs `gh` on the terminal and tells whether it succeeded.
pub fn gh_success(log: &mut Log, args: Args) -> (result: Result<bool, Stop>)
    ensures
        Run::of(result, final(log)@) == gh_success_run(args@, old(log)@),
{
    let line = CommandLine {
        program: Program::Gh,
        args,
        index_file: None,
        stdin: None,
        collect: false,
    };
    success(log, line, "Failed to run gh: ")
}

pub open spec fn gh_output_run(args: Seq<Seq<char>>, log: Seq<Reply>) -> Run<Seq<char>> {
    output_run(
        collected(Program::Gh, args),
        "Failed to run gh: "@,
        "GitHub CLI command failed."@,
        log,
    )
}

/// Runs `gh` for its trimmed output.
pub fn gh_output(log: &mut Log, args: Args) -> (result: Result<String, Stop>)
    ensures
        Run::of(result, final(log)@) == gh_output_run(args@, old(log)@),
{
    let line = CommandLine {
        program: Program::Gh,
        args,
        index_file: None,
        stdin: None,
        collect: true,
    };
    output(log, line, "Failed to run gh: ", "GitHub CLI command failed.")
}

pub open spec fn git_status_run(args: Seq<Seq<char>>, log: Seq<Reply>) -> Run<()> {
    status_run(
        plain(Program::Git, args),
        "Failed to run git: "@,
        "Git command failed with status "@,
        log,
    )
}

/// Runs `git` on the terminal; it has to succeed.
pub fn git_status(log: &mut Log, args: Args) -> (result: Result<(), Stop>)
    ensures
        Run::of(result, final(log)@) == git_status_run(args@, old(log)@),
{
    let line = CommandLine {
        program: Program::Git,
        args,
        index_file: None,
        stdin: None,
        collect: false,
    };
    status(log, line, "Failed to run git: ", "Git command failed with status ")
}

pub open spec fn git_success_run(args: Seq<Seq<char>>, log: Seq<Reply>) -> Run<bool> {
    success_run(plain(Program::Git, args), "Failed to run git: "@, log)
}

/// Runs `git` on the terminal and tells whether it succeeded.
pub fn git_success(log: &mut Log, args: Args) -> (result: Result<bool, Stop>)
    ensures
        Run::of(result, final(log)@) == git_success_run(args@, old(log)@),
{
    let line = CommandLine {
        program: Program::Git,
        args,
        index_file: None,
        stdin: None,
        collect: false,
    };
    success(log, line, "Failed to run git: ")
}

pub open spec fn git_status_with_index_run(
    args: Seq<Seq<char>>,
    index_path: Seq<char>,
    log: Seq<Reply>,
) -> Run<()> {
    let line = CommandLineView { index_file: Some(index_path), ..plain(Program::Git, args) };
    status_run(line, "Failed to run git: "@, "Git command failed with status "@, log)
}

/// Runs `git` on the terminal with an index file of its own; it has to succeed.
pub fn git_status_with_index(log: &mut Log, args: Args, index_path: &str) -> (result: Result<
    (),
    Stop,
>)
    ensures
        Run::of(result, final(log)@) == git_status_with_index_run(
            args@,
            index_path@,
            old(log)@,
        ),
{
    let line = CommandLine {
        program: Program::Git,
        args,
        index_file: Some(index_path.to_owned()),
        stdin: None,
        collect: false,
    };
    status(log, line, "Failed to run git: ", "Git command failed with status ")
}

pub open spec fn git_output_run(
    args: Seq<Seq<char>>,
    stdin: Option<Seq<char>>,
    log: Seq<Reply>,
) -> Run<Seq<char>> {
    let line = CommandLineView { stdin, ..collected(Program::Git, args) };
    output_run(line, "Failed to run git: "@, "Git command failed."@, log)
}

/// Runs `git` for its trimmed output, with the given text as its input, if any.
pub fn git_output(log: &mut Log, args: Args, stdin: Option<&str>) -> (result: Result<String, Stop>)
    ensures
        Run::of(result, final(log)@) == git_output_run(args@, stdin.deep_view(), old(log)@),
{
    let stdin = match stdin {
        Some(input) => Some(input.to_owned()),
        None => None,
    };
    let line = CommandLine { program: Program::Git, args, index_file: None, stdin, collect: true };
    output(log, line, "Failed to run git: ", "Git command failed.")
}

pub open spec fn git_output_with_index_run(
    args: Seq<Seq<char>>,
    index_path: Seq<char>,
    log: Seq<Reply>,
) -> Run<Seq<char>> {
    let line = CommandLineView { index_file: Some(index_path), ..collected(Program::Git, args) };
    output_run(line, "Failed to run git: "@, "Git command failed."@, log)
}

/// Runs `git` with an index file of its own for its trimmed output.
pub fn git_output_with_index(log: &mut Log, args: Args, index_path: &str) -> (result: Result<
    String,
    Stop,
>)
    ensures
        Run::of(result, final(log)@) == git_output_with_index_run(
            args@,
            index_path@,
            old(log)@,
        ),
{
    let line = CommandLine {
        program: Program::Git,
        args,
        index_file: Some(index_path.to_owned()),
        stdin: None,
        collect: true,
    };
    output(log, line, "Failed to run git: ", "Git command failed.")
}

/// The output of a program that needs no arguments: nothing where it does not start, does
/// not succeed or does not print UTF-8.
pub open spec fn command_stdout_run(program: Program, log: Seq<Reply>) -> Run<Option<Seq<char>>> {
    command_run(collected(program, Seq::empty()), log).and_then(
        |reply: CommandReply, log: Seq<Reply>|
            Run::Done(
                match reply {
                    CommandReply::Finished(finished) if finished.success && utf8::valid_utf8(
                        finished.stdout@,
                    ) => Some(utf8::decode_utf8(finished.stdout@)),
                    _ => None,
                },
                log,
            ),
    )
}

pub fn command_stdout(log: &mut Log, program: Program) -> (result: Result<Option<String>, Stop>)
    ensures
        Run::of(result, final(log)@) == command_stdout_run(program, old(log)@),
{
    let line = CommandLine {
        program,
        args: Args::none(),
        index_file: None,
        stdin: None,
        collect: true,
    };
    match command(log, line)? {
        CommandReply::Finished(finished) if finished.success => match from_utf8(
            &finished.stdout,
        ) {
            Ok(stdout) => Ok(Some(stdout)),
            Err(_) => Ok(None),
        },
        _ => Ok(None),
    }
}

pub open spec fn ensure_gh_installed_run(log: Seq<Reply>) -> Run<()> {
    command_run(collected(Program::Gh, exchange::argv("--version"@)), log).and_then(
        |reply: CommandReply, log: Seq<Reply>|
            match reply {
                CommandReply::NotStarted(_) => Run::Failed(
                    "GitHub CLI (`gh`) is required for `jist session`."@,
                    log,
                ),
                CommandReply::Finished(_) => Run::Done((), log),
            },
    )
}

/// Fails unless `gh` can be started.
pub fn ensure_gh_installed(log: &mut Log) -> (result: Result<(), Stop>)
    ensures
        Run::of(result, final(log)@) == ensure_gh_installed_run(old(log)@),
{
    let line = CommandLine {
        program: Program::Gh,
        args: Args::new("--version"),
        index_file: None,
        stdin: None,
        collect: true,
    };
    match command(log, line)? {
        CommandReply::NotStarted(_) => Err(
            Stop::Fail("GitHub CLI (`gh`) is required for `jist session`.".to_owned()),
        ),
        CommandReply::Finished(_) => Ok(()),
    }
}

} // verus!
