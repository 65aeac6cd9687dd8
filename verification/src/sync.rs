//! How far the working tree and the remote branch of a session agree.

use crate::claim;
use crate::command;
use crate::exchange;
use crate::exchange::{Args, Log, Reply, Run, Stop};
use crate::style;
use crate::text;
use vstd::hash_set::StringHashSet;
use vstd::prelude::*;

verus! {

/// How many files differ from the remote branch, and how many files there are in all.
#[derive(Debug, PartialEq, Eq)]
pub struct SyncStatus {
    pub unsynced_files: usize,
    pub total_files: usize,
}

pub struct SyncStatusView {
    pub unsynced_files: nat,
    pub total_files: nat,
}

impl View for SyncStatus {
    type V = SyncStatusView;

    open spec fn view(&self) -> SyncStatusView {
        SyncStatusView {
            unsynced_files: self.unsynced_files as nat,
            total_files: self.total_files as nat,
        }
    }
}

impl DeepView for SyncStatus {
    type V = SyncStatusView;

    open spec fn deep_view(&self) -> SyncStatusView {
        self@
    }
}

/// The lines that hold more than white space.
pub open spec fn filled_lines(value: Seq<char>) -> Seq<Seq<char>> {
    text::lines(value).filter(|line: Seq<char>| text::trimmed(line).len() > 0)
}

pub fn non_empty_lines(value: &str) -> (result: Vec<String>)
    ensures
        result.deep_view() == filled_lines(value@),
{
    let chars = text::chars_of(value);
    let ranges = text::line_ranges(&chars);
    let ghost lines = text::lines(value@);
    let ghost filled = |line: Seq<char>| text::trimmed(line).len() > 0;
    let mut result: Vec<String> = Vec::new();
    let mut i: usize = 0;
    proof {
        reveal(Seq::filter);
        assert(result.deep_view() =~= lines.take(0).filter(filled));
    }
    while i < ranges.len()
        invariant
            i <= ranges@.len(),
            chars@ == value@,
            lines == text::at_ranges(chars@, ranges@),
            forall|j: int|
                0 <= j < ranges@.len() ==> (#[trigger] ranges@[j]).0 <= ranges@[j].1
                    <= chars@.len(),
            filled == (|line: Seq<char>| text::trimmed(line).len() > 0),
            result.deep_view() == lines.take(i as int).filter(filled),
        decreases ranges@.len() - i,
    {
        let range = ranges[i];
        let line = text::text_of(&chars, range.0, range.1);
        let ghost before = result.deep_view();
        let ghost line_view = line@;
        if !text::trim(line.as_str()).is_empty() {
            result.push(line);
            assert(result.deep_view() =~= before.push(line_view));
        }
        proof {
            reveal(Seq::filter);
            assert(line_view == lines[i as int]);
            assert(lines.take(i + 1).drop_last() =~= lines.take(i as int));
        }
        i += 1;
    }
    assert(lines.take(i as int) =~= lines);
    result
}

/// The files that a list of lines names.
pub open spec fn files_in(value: Seq<char>) -> Set<Seq<char>> {
    filled_lines(value).to_set()
}

/// Adds the files that a list of lines names.
fn add_files(files: &mut StringHashSet, value: &str)
    ensures
        final(files)@ == old(files)@.union(files_in(value@)),
{
    let lines = non_empty_lines(value);
    let ghost names = lines.deep_view();
    let mut i: usize = 0;
    assert(files@ =~= old(files)@.union(names.take(0).to_set()));
    while i < lines.len()
        invariant
            i <= lines@.len(),
            names == lines.deep_view(),
            files@ == old(files)@.union(names.take(i as int).to_set()),
        decreases lines@.len() - i,
    {
        files.insert(lines[i].clone());
        proof {
            let now = names.take(i + 1);
            let before = names.take(i as int);
            assert(now =~= before.push(names[i as int]));
            assert(now.to_set() =~= before.to_set().insert(names[i as int])) by {
                assert forall|name: Seq<char>| #[trigger]
                    now.contains(name) == (before.contains(name) || name == names[i as int]) by {
                    if before.contains(name) {
                        let k = before.index_of(name);
                        assert(now[k] == name);
                    }
                    if name == names[i as int] {
                        assert(now[i as int] == name);
                    }
                }
            }
            assert(files@ =~= old(files)@.union(now.to_set()));
        }
        i += 1;
    }
    assert(names.take(i as int) =~= names);
}

/// The files that differ: those that git reports as changed, and the untracked ones.
pub open spec fn unsynced_set(changed: Seq<char>, untracked: Seq<char>) -> Set<Seq<char>> {
    files_in(changed).union(files_in(untracked))
}

/// All files: those of the remote branch, and those that differ.
pub open spec fn total_set(
    changed: Seq<char>,
    untracked: Seq<char>,
    remote: Seq<char>,
) -> Set<Seq<char>> {
    files_in(remote).union(unsynced_set(changed, untracked))
}

pub open spec fn sync_status_of(
    changed: Seq<char>,
    untracked: Seq<char>,
    remote: Seq<char>,
) -> SyncStatusView {
    SyncStatusView {
        unsynced_files: unsynced_set(changed, untracked).len(),
        total_files: total_set(changed, untracked, remote).len(),
    }
}

/// Counts files, from the lists that git printed.
pub fn count_files(changed: &str, untracked: &str, remote: &str) -> (result: SyncStatus)
    ensures
        result@ == sync_status_of(changed@, untracked@, remote@),
{
    let mut unsynced_files = StringHashSet::new();
    add_files(&mut unsynced_files, changed);
    add_files(&mut unsynced_files, untracked);
    assert(unsynced_files@ =~= unsynced_set(changed@, untracked@));
    let mut total_files = StringHashSet::new();
    add_files(&mut total_files, remote);
    add_files(&mut total_files, changed);
    add_files(&mut total_files, untracked);
    assert(total_files@ =~= total_set(changed@, untracked@, remote@));
    SyncStatus { unsynced_files: unsynced_files.len(), total_files: total_files.len() }
}

pub open spec fn sync_status_for_branch_run(jist_branch: Seq<char>, log: Seq<Reply>) -> Run<
    SyncStatusView,
> {
    let remote_ref = claim::remote_ref_of(jist_branch);
    command::git_output_run(
        exchange::argv("diff"@).push("--name-only"@).push(remote_ref).push("--"@),
        None,
        log,
    ).and_then(
        |changed: Seq<char>, log: Seq<Reply>|
            command::git_output_run(
                exchange::argv("ls-files"@).push("--others"@).push("--exclude-standard"@),
                None,
                log,
            ).and_then(
                |untracked: Seq<char>, log: Seq<Reply>|
                    command::git_output_run(
                        exchange::argv("ls-tree"@).push("-r"@).push("--name-only"@).push(
                            remote_ref,
                        ),
                        None,
                        log,
                    ).and_then(
                        |remote: Seq<char>, log: Seq<Reply>|
                            Run::Done(sync_status_of(changed, untracked, remote), log),
                    ),
            ),
    )
}

/// Compares the working tree with the remote branch of a session.
pub fn sync_status_for_branch(log: &mut Log, jist_branch: &str) -> (result: Result<
    SyncStatus,
    Stop,
>)
    ensures
        Run::of(result, final(log)@) == sync_status_for_branch_run(jist_branch@, old(log)@),
{
    let remote_ref = claim::remote_ref(jist_branch);
    let changed_files = command::git_output(
        log,
        Args::new("diff").arg("--name-only").arg(remote_ref.as_str()).arg("--"),
        None,
    )?;
    let untracked_files = command::git_output(
        log,
        Args::new("ls-files").arg("--others").arg("--exclude-standard"),
        None,
    )?;
    let remote_files = command::git_output(
        log,
        Args::new("ls-tree").arg("-r").arg("--name-only").arg(remote_ref.as_str()),
        None,
    )?;
    Ok(count_files(changed_files.as_str(), untracked_files.as_str(), remote_files.as_str()))
}

/// `count`, and how many files that is.
pub open spec fn counted_files(count: nat) -> Seq<char> {
    text::decimal(count) + " "@ + style::plural("file"@, count)
}

fn format_file_count(count: usize) -> (result: String)
    ensures
        result@ == counted_files(count as nat),
{
    text::decimal_text(count as u128).concat(" ").concat(style::pluralize("file", count))
}

/// `count` files, and that they are.
pub open spec fn counted_files_are(count: nat) -> Seq<char> {
    counted_files(count) + " "@ + style::verb(count) + " "@
}

fn format_file_clause(count: usize) -> (result: String)
    ensures
        result@ == counted_files_are(count as nat),
{
    format_file_count(count).concat(" ").concat(style::pluralized_verb(count)).concat(" ")
}

/// The files that agree with the remote branch.
pub open spec fn synchronized_files(status: SyncStatusView) -> nat {
    if status.total_files >= status.unsynced_files {
        (status.total_files - status.unsynced_files) as nat
    } else {
        0
    }
}

/// How far a session is synchronized, in one sentence or two.
pub open spec fn session_sync_text(status: SyncStatusView) -> Seq<char> {
    if status.unsynced_files == 0 {
        "All "@ + counted_files_are(status.total_files) + style::green("fully synced"@) + "."@
    } else {
        counted_files_are(status.unsynced_files) + style::red("unsynchronized"@) + ".\n"@
            + counted_files_are(synchronized_files(status)) + style::green("synchronized"@)
            + "."@
    }
}

pub fn format_session_sync_status(sync_status: &SyncStatus) -> (result: String)
    ensures
        result@ == session_sync_text(sync_status@),
{
    if sync_status.unsynced_files == 0 {
        "All ".to_owned().concat(format_file_clause(sync_status.total_files).as_str()).concat(
            style::format_green("fully synced").as_str(),
        ).concat(".")
    } else {
        let synchronized: usize = sync_status.total_files.saturating_sub(
            sync_status.unsynced_files,
        );
        format_file_clause(sync_status.unsynced_files).concat(
            style::format_red("unsynchronized").as_str(),
        ).concat(".\n").concat(format_file_clause(synchronized).as_str()).concat(
            style::format_green("synchronized").as_str(),
        ).concat(".")
    }
}

/// How far a session is synchronized, in brief.
pub open spec fn sync_text(status: SyncStatusView) -> Seq<char> {
    if status.unsynced_files == 0 {
        "\x1b[32mFully synced ("@ + counted_files(status.total_files) + ")\x1b[0m"@
    } else {
        "\x1b[31m"@ + counted_files(status.unsynced_files) + " unsynced (out of "@
            + counted_files(status.total_files) + ")\x1b[0m"@
    }
}

pub fn format_sync_status(sync_status: &SyncStatus) -> (result: String)
    ensures
        result@ == sync_text(sync_status@),
{
    if sync_status.unsynced_files == 0 {
        "\x1b[32mFully synced (".to_owned().concat(
            format_file_count(sync_status.total_files).as_str(),
        ).concat(")\x1b[0m")
    } else {
        "\x1b[31m".to_owned().concat(
            format_file_count(sync_status.unsynced_files).as_str(),
        ).concat(" unsynced (out of ").concat(
            format_file_count(sync_status.total_files).as_str(),
        ).concat(")\x1b[0m")
    }
}

pub open spec fn ensure_fully_synchronized_run(jist_branch: Seq<char>, log: Seq<Reply>) -> Run<()> {
    sync_status_for_branch_run(jist_branch, log).and_then(
        |status: SyncStatusView, log: Seq<Reply>|
            if status.unsynced_files == 0 {
                Run::Done((), log)
            } else {
                Run::Failed(
                    "Cannot claim this JIST session while "@ + counted_files(
                        status.unsynced_files,
                    ) + " unsynchronized."@,
                    log,
                )
            },
    )
}

/// Fails if any file differs from the remote branch of the session.
pub fn ensure_fully_synchronized(log: &mut Log, jist_branch: &str) -> (result: Result<(), Stop>)
    ensures
        Run::of(result, final(log)@) == ensure_fully_synchronized_run(jist_branch@, old(log)@),
{
    let sync_status = sync_status_for_branch(log, jist_branch)?;
    if sync_status.unsynced_files == 0 {
        Ok(())
    } else {
        Err(
            Stop::Fail(
                "Cannot claim this JIST session while ".to_owned().concat(
                    format_file_count(sync_status.unsynced_files).as_str(),
                ).concat(" unsynchronized."),
            ),
        )
    }
}

} // verus!
