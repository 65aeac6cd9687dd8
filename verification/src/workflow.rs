//! The workflows on a session: start it, check it out, claim it, push it, give it back and
//! delete it.

use crate::ask;
use crate::claim;
use crate::claim::JIST_REMOTE;
use crate::command;
use crate::exchange;
use crate::exchange::{Args, Log, Reply, Request, RequestView, Run, Stop};
use crate::repository;
use crate::session;
use crate::sync;
use crate::text;
use vstd::prelude::*;

verus! {

pub open spec fn ensure_clean_worktree_run(log: Seq<Reply>) -> Run<()> {
    command::git_output_run(
        exchange::argv("status"@).push("--porcelain"@),
        None,
        log,
    ).and_then(
        |status: Seq<char>, log: Seq<Reply>|
            if status.len() == 0 {
                Run::Done((), log)
            } else {
                Run::Failed(
                    "Cannot check out a JIST session with uncommitted working changes."@,
                    log,
                )
            },
    )
}

/// Fails if the working tree holds changes that are not committed.
pub fn ensure_clean_worktree(log: &mut Log) -> (result: Result<(), Stop>)
    ensures
        Run::of(result, final(log)@) == ensure_clean_worktree_run(old(log)@),
{
    let status = command::git_output(log, Args::new("status").arg("--porcelain"), None)?;
    if status.as_str().is_empty() {
        Ok(())
    } else {
        Err(
            Stop::Fail(
                "Cannot check out a JIST session with uncommitted working changes.".to_owned(),
            ),
        )
    }
}

/// The check out of a branch that is known here.
pub open spec fn checkout_known(jist_branch: Seq<char>) -> Seq<Seq<char>> {
    exchange::argv("checkout"@).push(jist_branch)
}

/// The check out of a branch that is not known here yet.
pub open spec fn checkout_new(jist_branch: Seq<char>) -> Seq<Seq<char>> {
    exchange::argv("checkout"@).push("--track"@).push("-b"@).push(jist_branch).push(
        JIST_REMOTE@ + "/"@ + jist_branch,
    )
}

pub open spec fn checkout_jist_branch_run(jist_branch: Seq<char>, log: Seq<Reply>) -> Run<()> {
    session::fetch_jist_branch_run(jist_branch, log).and_then(
        |_done: (), log: Seq<Reply>|
            session::local_branch_exists_run(jist_branch, log).and_then(
                |exists: bool, log: Seq<Reply>|
                    if exists {
                        command::git_status_run(checkout_known(jist_branch), log)
                    } else {
                        command::git_status_run(checkout_new(jist_branch), log)
                    },
            ),
    )
}

/// Fetches the branch of a session and checks it out.
pub fn checkout_jist_branch(log: &mut Log, jist_branch: &str) -> (result: Result<(), Stop>)
    ensures
        Run::of(result, final(log)@) == checkout_jist_branch_run(jist_branch@, old(log)@),
{
    session::fetch_jist_branch(log, jist_branch)?;
    if session::local_branch_exists(log, jist_branch)? {
        command::git_status(log, Args::new("checkout").arg(jist_branch))
    } else {
        let remote_branch = JIST_REMOTE.to_owned().concat("/").concat(jist_branch);
        command::git_status(
            log,
            Args::new("checkout").arg("--track").arg("-b").arg(jist_branch).arg(
                remote_branch.as_str(),
            ),
        )
    }
}

pub open spec fn checkout_session_run(session_name: Seq<char>, log: Seq<Reply>) -> Run<()> {
    ensure_clean_worktree_run(log).and_then(
        |_done: (), log: Seq<Reply>|
            checkout_jist_branch_run(session::branch_of(session_name), log),
    )
}

/// Checks out a session if the working tree is clean.
pub fn checkout_session(log: &mut Log, session_name: &str) -> (result: Result<(), Stop>)
    ensures
        Run::of(result, final(log)@) == checkout_session_run(session_name@, old(log)@),
{
    ensure_clean_worktree(log)?;
    checkout_jist_branch(log, session::jist_branch_name(session_name).as_str())
}

pub open spec fn delete_prompt(session_name: Seq<char>) -> Seq<char> {
    "Delete JIST session `"@ + session_name + "`? Type `confirm` to continue: "@
}

pub open spec fn require_delete_confirmation_run(session_name: Seq<char>, log: Seq<Reply>) -> Run<
    (),
> {
    ask::action_run(
        RequestView::Prompt(delete_prompt(session_name)),
        "Failed to write confirmation prompt: "@,
        log,
    ).and_then(
        |_done: (), log: Seq<Reply>|
            ask::read_line_run("Failed to read confirmation: "@, log).and_then(
                |response: Seq<char>, log: Seq<Reply>|
                    if text::trimmed(response) == "confirm"@ {
                        Run::Done((), log)
                    } else {
                        Run::Failed("Delete cancelled."@, log)
                    },
            ),
    )
}

/// Fails unless the user types `confirm`.
pub fn require_delete_confirmation(log: &mut Log, session_name: &str) -> (result: Result<(), Stop>)
    ensures
        Run::of(result, final(log)@) == require_delete_confirmation_run(
            session_name@,
            old(log)@,
        ),
{
    let prompt = "Delete JIST session `".to_owned().concat(session_name).concat(
        "`? Type `confirm` to continue: ",
    );
    ask::action(log, Request::Prompt(prompt), "Failed to write confirmation prompt: ")?;
    let response = ask::read_line(log, "Failed to read confirmation: ")?;
    if text::same(text::trim(response.as_str()), "confirm") {
        Ok(())
    } else {
        Err(Stop::Fail("Delete cancelled.".to_owned()))
    }
}

pub open spec fn missing_session_text(session_name: Seq<char>) -> Seq<char> {
    "JIST session `"@ + session_name + "` does not exist."@
}

/// The push that deletes a branch from the remote.
pub open spec fn delete_push(jist_branch: Seq<char>) -> Seq<Seq<char>> {
    exchange::argv("push"@).push(JIST_REMOTE@).push(":refs/heads/"@ + jist_branch)
}

/// What is left to do for a session that is to be deleted, once its commit was looked up.
pub open spec fn delete_found_run(
    session_name: Seq<char>,
    commit: Option<Seq<char>>,
    log: Seq<Reply>,
) -> Run<()> {
    match commit {
        Some(_) => require_delete_confirmation_run(session_name, log).and_then(
            |_done: (), log: Seq<Reply>|
                command::git_status_run(
                    delete_push(session::branch_of(session_name)),
                    log,
                ).and_then(
                    |_done: (), log: Seq<Reply>| session::fetch_jist_sessions_run(log),
                ),
        ),
        None => Run::Failed(missing_session_text(session_name), log),
    }
}

/// The deletion of a session from a remote that was opened.
pub open spec fn delete_opened_run(session_name: Seq<char>, log: Seq<Reply>) -> Run<()> {
    session::remote_branch_commit_run(session::branch_of(session_name), log).and_then(
        |commit: Option<Seq<char>>, log: Seq<Reply>| delete_found_run(session_name, commit, log),
    )
}

pub open spec fn delete_session_run(session_name: Seq<char>, log: Seq<Reply>) -> Run<()> {
    repository::open_remote_run(log).and_then(
        |_done: (), log: Seq<Reply>| delete_opened_run(session_name, log),
    )
}

/// Deletes a session from the remote, once the user confirmed it.
pub fn delete_session(log: &mut Log, session_name: &str) -> (result: Result<(), Stop>)
    ensures
        Run::of(result, final(log)@) == delete_session_run(session_name@, old(log)@),
{
    repository::open_remote(log)?;
    let jist_branch = session::jist_branch_name(session_name);
    if session::remote_branch_commit(log, jist_branch.as_str())?.is_none() {
        return Err(
            Stop::Fail(
                "JIST session `".to_owned().concat(session_name).concat("` does not exist."),
            ),
        );
    }
    require_delete_confirmation(log, session_name)?;
    let refspec = ":refs/heads/".to_owned().concat(jist_branch.as_str());
    command::git_status(log, Args::new("push").arg(JIST_REMOTE).arg(refspec.as_str()))?;
    session::fetch_jist_sessions(log)
}

/// The name of the index file that the process of this number uses for a first commit.
pub open spec fn index_name(process: u32) -> Seq<char> {
    "jist-init-index-"@ + text::decimal(process as nat)
}

/// The commit on top of `head` that adds the metadata of a session that nobody claims, made
/// in an index file of its own.
pub open spec fn commit_metadata_run(
    session_name: Seq<char>,
    head: Seq<char>,
    index_path: Seq<char>,
    log: Seq<Reply>,
) -> Run<Seq<char>> {
    command::git_status_with_index_run(
        exchange::argv("read-tree"@).push("HEAD"@),
        index_path,
        log,
    ).and_then(
        |_done: (), log: Seq<Reply>|
            command::git_output_run(
                exchange::argv("hash-object"@).push("-w"@).push("--stdin"@),
                Some("initialized=true\n"@),
                log,
            ).and_then(
                |meta_blob: Seq<char>, log: Seq<Reply>|
                    command::git_status_with_index_run(
                        exchange::argv("update-index"@).push("--add"@).push("--cacheinfo"@).push(
                            "100644"@,
                        ).push(meta_blob).push(".jist-meta"@),
                        index_path,
                        log,
                    ).and_then(
                        |_done: (), log: Seq<Reply>|
                            command::git_output_with_index_run(
                                exchange::argv("write-tree"@),
                                index_path,
                                log,
                            ).and_then(
                                |tree: Seq<char>, log: Seq<Reply>|
                                    command::git_output_run(
                                        exchange::argv("commit-tree"@).push(tree).push("-p"@).push(
                                            head,
                                        ).push("-m"@).push("WIP: "@ + session_name),
                                        None,
                                        log,
                                    ),
                            ),
                    ),
            ),
    )
}

fn commit_metadata(log: &mut Log, session_name: &str, head: &str, index_path: &str) -> (result:
    Result<String, Stop>)
    ensures
        Run::of(result, final(log)@) == commit_metadata_run(
            session_name@,
            head@,
            index_path@,
            old(log)@,
        ),
{
    command::git_status_with_index(log, Args::new("read-tree").arg("HEAD"), index_path)?;
    let meta_blob = command::git_output(
        log,
        Args::new("hash-object").arg("-w").arg("--stdin"),
        Some(claim::unclaimed_metadata()),
    )?;
    command::git_status_with_index(
        log,
        Args::new("update-index").arg("--add").arg("--cacheinfo").arg("100644").arg(
            meta_blob.as_str(),
        ).arg(".jist-meta"),
        index_path,
    )?;
    let tree = command::git_output_with_index(log, Args::new("write-tree"), index_path)?;
    let message = "WIP: ".to_owned().concat(session_name);
    command::git_output(
        log,
        Args::new("commit-tree").arg(tree.as_str()).arg("-p").arg(head).arg("-m").arg(
            message.as_str(),
        ),
        None,
    )
}

/// The commit that is checked out, the number of this process, and where its index file goes.
pub open spec fn index_file_run(log: Seq<Reply>) -> Run<(Seq<char>, u32, Seq<char>)> {
    session::head_run(log).and_then(
        |head: Seq<char>, log: Seq<Reply>|
            ask::process_id_run(log).and_then(
                |process: u32, log: Seq<Reply>|
                    ask::temp_path_run(index_name(process), log).and_then(
                        |index_path: Seq<char>, log: Seq<Reply>|
                            Run::Done((head, process, index_path), log),
                    ),
            ),
    )
}

/// `run`, and after its result or failure the removal of a temporary file, which changes
/// neither.
pub open spec fn cleaned_up_run(run: Run<Seq<char>>, name: Seq<char>) -> Run<Seq<char>> {
    match run {
        Run::Done(commit, log) => ask::attempt_run(RequestView::RemoveTempFile(name), log).and_then(
            |_done: (), log: Seq<Reply>| Run::Done(commit, log),
        ),
        Run::Failed(message, log) => ask::attempt_run(
            RequestView::RemoveTempFile(name),
            log,
        ).and_then(|_done: (), log: Seq<Reply>| Run::Failed(message, log)),
        Run::Asks(request) => Run::Asks(request),
    }
}

pub open spec fn create_jist_meta_commit_run(session_name: Seq<char>, log: Seq<Reply>) -> Run<
    Seq<char>,
> {
    index_file_run(log).and_then(
        |index: (Seq<char>, u32, Seq<char>), log: Seq<Reply>|
            cleaned_up_run(
                commit_metadata_run(session_name, index.0, index.2, log),
                index_name(index.1),
            ),
    )
}

/// Makes the first commit of a session, which leaves the working tree and the index alone.
pub fn create_jist_meta_commit(log: &mut Log, session_name: &str) -> (result: Result<String, Stop>)
    ensures
        Run::of(result, final(log)@) == create_jist_meta_commit_run(session_name@, old(log)@),
{
    let head = session::head(log)?;
    let process: u32 = ask::process_id(log)?;
    let name = "jist-init-index-".to_owned().concat(
        text::decimal_text(process as u128).as_str(),
    );
    let index_path = ask::temp_path(log, name.as_str())?;
    match commit_metadata(log, session_name, head.as_str(), index_path.as_str()) {
        Ok(commit) => {
            ask::attempt(log, Request::RemoveTempFile(name))?;
            Ok(commit)
        },
        Err(Stop::Fail(message)) => {
            ask::attempt(log, Request::RemoveTempFile(name))?;
            Err(Stop::Fail(message))
        },
        Err(Stop::Ask(request)) => Err(Stop::Ask(request)),
    }
}

/// The push that brings a new session to the remote.
pub open spec fn first_push(commit: Seq<char>, jist_branch: Seq<char>) -> Seq<Seq<char>> {
    exchange::argv("push"@).push(JIST_REMOTE@).push(commit + ":refs/heads/"@ + jist_branch)
}

/// The commit of a session on the remote, made and pushed if it is not there yet.
pub open spec fn ensure_session_run(
    session_name: Seq<char>,
    commit: Option<Seq<char>>,
    log: Seq<Reply>,
) -> Run<Seq<char>> {
    match commit {
        Some(commit) => Run::Done(commit, log),
        None => create_jist_meta_commit_run(session_name, log).and_then(
            |commit: Seq<char>, log: Seq<Reply>|
                command::git_status_run(
                    first_push(commit, session::branch_of(session_name)),
                    log,
                ).and_then(|_done: (), log: Seq<Reply>| Run::Done(commit, log)),
        ),
    }
}

fn ensure_session(
    log: &mut Log,
    session_name: &str,
    jist_branch: &str,
    commit: Option<String>,
) -> (result: Result<String, Stop>)
    requires
        jist_branch@ == session::branch_of(session_name@),
    ensures
        Run::of(result, final(log)@) == ensure_session_run(
            session_name@,
            commit.deep_view(),
            old(log)@,
        ),
{
    match commit {
        Some(commit) => Ok(commit),
        None => {
            let commit = create_jist_meta_commit(log, session_name)?;
            let refspec = commit.clone().concat(":refs/heads/").concat(jist_branch);
            command::git_status(log, Args::new("push").arg(JIST_REMOTE).arg(refspec.as_str()))?;
            Ok(commit)
        },
    }
}

/// The private repository exists, and the remote of the sessions points to it.
pub open spec fn private_remote_run(repository: Seq<char>, log: Seq<Reply>) -> Run<()> {
    repository::ensure_private_repository_run(repository, log).and_then(
        |_done: (), log: Seq<Reply>| repository::ensure_jist_remote_run(repository, log),
    )
}

/// The same, for the private repository of this one.
pub open spec fn name_and_prepare_run(log: Seq<Reply>) -> Run<()> {
    repository::private_name_run(log).and_then(
        |repository: Seq<char>, log: Seq<Reply>| private_remote_run(repository, log),
    )
}

/// The same, once it is clear that `gh` can be started.
pub open spec fn prepare_remote_run(log: Seq<Reply>) -> Run<()> {
    command::ensure_gh_installed_run(log).and_then(
        |_done: (), log: Seq<Reply>| name_and_prepare_run(log),
    )
}

/// The start of a session whose commit on the remote, if it has one, was looked up.
pub open spec fn start_found_run(
    session_name: Seq<char>,
    found: Option<Seq<char>>,
    log: Seq<Reply>,
) -> Run<Seq<char>> {
    ensure_session_run(session_name, found, log).and_then(
        |commit: Seq<char>, log: Seq<Reply>|
            checkout_jist_branch_run(session::branch_of(session_name), log).and_then(
                |_done: (), log: Seq<Reply>| Run::Done(commit, log),
            ),
    )
}

/// The start of a session from a branch that is checked out.
pub open spec fn start_on_branch_run(session_name: Seq<char>, log: Seq<Reply>) -> Run<Seq<char>> {
    session::remote_branch_commit_run(session::branch_of(session_name), log).and_then(
        |found: Option<Seq<char>>, log: Seq<Reply>| start_found_run(session_name, found, log),
    )
}

/// The start of a session on a remote that was prepared.
pub open spec fn start_prepared_run(session_name: Seq<char>, log: Seq<Reply>) -> Run<Seq<char>> {
    session::current_branch_run(log).and_then(
        |branch: Seq<char>, log: Seq<Reply>|
            if branch.len() == 0 {
                Run::Failed("Cannot initialize JIST from a detached HEAD."@, log)
            } else {
                start_on_branch_run(session_name, log)
            },
    )
}

pub open spec fn start_jist_session_run(session_name: Seq<char>, log: Seq<Reply>) -> Run<
    Seq<char>,
> {
    prepare_remote_run(log).and_then(
        |_done: (), log: Seq<Reply>| start_prepared_run(session_name, log),
    )
}

/// Creates a session, if there is none of that name, and checks it out.
pub fn start_jist_session(log: &mut Log, session_name: &str) -> (result: Result<String, Stop>)
    ensures
        Run::of(result, final(log)@) == start_jist_session_run(session_name@, old(log)@),
{
    command::ensure_gh_installed(log)?;
    let source_repo_name = repository::repository_name(log)?;
    let repository = repository::jist_repository_name(log, source_repo_name.as_str())?;
    repository::ensure_private_repository(log, repository.as_str())?;
    repository::ensure_jist_remote(log, repository.as_str())?;
    if session::current_branch(log)?.as_str().is_empty() {
        return Err(Stop::Fail("Cannot initialize JIST from a detached HEAD.".to_owned()));
    }
    let jist_branch = session::jist_branch_name(session_name);
    let found = session::remote_branch_commit(log, jist_branch.as_str())?;
    let commit = ensure_session(log, session_name, jist_branch.as_str(), found)?;
    checkout_jist_branch(log, jist_branch.as_str())?;
    Ok(commit)
}

/// The branch of a session, brought up to date from the remote.
pub open spec fn update_run(jist_branch: Seq<char>, log: Seq<Reply>) -> Run<()> {
    repository::reach_remote_run(log).and_then(
        |_done: (), log: Seq<Reply>| session::fetch_jist_branch_run(jist_branch, log),
    )
}

/// The branch that is checked out and the session it belongs to, brought up to date from the
/// remote. Where it belongs to none, the failure is `refusal`.
pub open spec fn enter_installed_run(refusal: Seq<char>, log: Seq<Reply>) -> Run<
    (Seq<char>, Seq<char>),
> {
    session::current_branch_run(log).and_then(
        |branch: Seq<char>, log: Seq<Reply>|
            match session::session_of_branch(branch) {
                Some(name) => update_run(branch, log).and_then(
                    |_done: (), log: Seq<Reply>| Run::Done((branch, name), log),
                ),
                None => Run::Failed(refusal, log),
            },
    )
}

/// The same, once it is clear that `gh` can be started.
pub open spec fn enter_session_run(refusal: Seq<char>, log: Seq<Reply>) -> Run<
    (Seq<char>, Seq<char>),
> {
    command::ensure_gh_installed_run(log).and_then(
        |_done: (), log: Seq<Reply>| enter_installed_run(refusal, log),
    )
}

fn enter_session(log: &mut Log, refusal: &str) -> (result: Result<(String, String), Stop>)
    ensures
        Run::of(result, final(log)@) == enter_session_run(refusal@, old(log)@),
{
    command::ensure_gh_installed(log)?;
    let current_branch = session::current_branch(log)?;
    let session_name = match session::session_name_from_jist_branch(current_branch.as_str()) {
        Some(name) => name.to_owned(),
        None => return Err(Stop::Fail(refusal.to_owned())),
    };
    repository::reach_remote(log)?;
    session::fetch_jist_branch(log, current_branch.as_str())?;
    Ok((current_branch, session_name))
}

/// The commit that takes the place of the last one.
pub open spec fn amend() -> Seq<Seq<char>> {
    exchange::argv("commit"@).push("--amend"@).push("--no-edit"@)
}

/// The push that lets the branch of a session on the remote be what is checked out.
pub open spec fn force_push(jist_branch: Seq<char>) -> Seq<Seq<char>> {
    exchange::argv("push"@).push("--force"@).push(JIST_REMOTE@).push(
        "HEAD:refs/heads/"@ + jist_branch,
    )
}

pub open spec fn amend_and_push_run(jist_branch: Seq<char>, log: Seq<Reply>) -> Run<()> {
    command::git_status_run(amend(), log).and_then(
        |_done: (), log: Seq<Reply>| command::git_status_run(force_push(jist_branch), log),
    )
}

fn push_head(log: &mut Log, jist_branch: &str) -> (result: Result<(), Stop>)
    ensures
        Run::of(result, final(log)@) == command::git_status_run(
            force_push(jist_branch@),
            old(log)@,
        ),
{
    let refspec = "HEAD:refs/heads/".to_owned().concat(jist_branch);
    command::git_status(
        log,
        Args::new("push").arg("--force").arg(JIST_REMOTE).arg(refspec.as_str()),
    )
}

fn amend_and_push(log: &mut Log, jist_branch: &str) -> (result: Result<(), Stop>)
    ensures
        Run::of(result, final(log)@) == amend_and_push_run(jist_branch@, old(log)@),
{
    command::git_status(log, Args::new("commit").arg("--amend").arg("--no-edit"))?;
    push_head(log, jist_branch)
}

/// The metadata file gets its content, and the branch is pushed with it.
pub open spec fn record_metadata_run(
    jist_branch: Seq<char>,
    metadata: Seq<char>,
    log: Seq<Reply>,
) -> Run<()> {
    ask::action_run(
        RequestView::WriteFile(".jist-meta"@, metadata),
        "Failed to write .jist-meta: "@,
        log,
    ).and_then(
        |_done: (), log: Seq<Reply>|
            command::git_status_run(exchange::argv("add"@).push(".jist-meta"@), log).and_then(
                |_done: (), log: Seq<Reply>| amend_and_push_run(jist_branch, log),
            ),
    )
}

fn record_metadata(log: &mut Log, jist_branch: &str, metadata: &str) -> (result: Result<(), Stop>)
    ensures
        Run::of(result, final(log)@) == record_metadata_run(
            jist_branch@,
            metadata@,
            old(log)@,
        ),
{
    let request = Request::WriteFile(".jist-meta".to_owned(), metadata.to_owned());
    ask::action(log, request, "Failed to write .jist-meta: ")?;
    command::git_status(log, Args::new("add").arg(".jist-meta"))?;
    amend_and_push(log, jist_branch)
}

/// The record of a claim of the user of this machine.
pub open spec fn write_claim_run(branch: Seq<char>, name: Seq<char>, log: Seq<Reply>) -> Run<
    Seq<char>,
> {
    claim::claim_metadata_run(log).and_then(
        |metadata: Seq<char>, log: Seq<Reply>|
            record_metadata_run(branch, metadata, log).and_then(
                |_done: (), log: Seq<Reply>| Run::Done(name, log),
            ),
    )
}

/// The claim of a session whose files agree with the remote branch.
pub open spec fn claim_synchronized_run(branch: Seq<char>, name: Seq<char>, log: Seq<Reply>) -> Run<
    Seq<char>,
> {
    claim::ensure_unclaimed_run(branch, log).and_then(
        |_done: (), log: Seq<Reply>| write_claim_run(branch, name, log),
    )
}

/// The claim of a session that was entered.
pub open spec fn claim_entered_run(branch: Seq<char>, name: Seq<char>, log: Seq<Reply>) -> Run<
    Seq<char>,
> {
    sync::ensure_fully_synchronized_run(branch, log).and_then(
        |_done: (), log: Seq<Reply>| claim_synchronized_run(branch, name, log),
    )
}

pub open spec fn claim_session_run(log: Seq<Reply>) -> Run<Seq<char>> {
    enter_session_run(
        "Check out a JIST session branch before running `jist claim`."@,
        log,
    ).and_then(
        |entered: (Seq<char>, Seq<char>), log: Seq<Reply>|
            claim_entered_run(entered.0, entered.1, log),
    )
}

/// Claims the session that is checked out, and gives its name.
pub fn claim_session(log: &mut Log) -> (result: Result<String, Stop>)
    ensures
        Run::of(result, final(log)@) == claim_session_run(old(log)@),
{
    let (current_branch, session_name) = enter_session(
        log,
        "Check out a JIST session branch before running `jist claim`.",
    )?;
    sync::ensure_fully_synchronized(log, current_branch.as_str())?;
    claim::ensure_unclaimed(log, current_branch.as_str())?;
    let metadata = claim::claim_metadata(log)?;
    record_metadata(log, current_branch.as_str(), metadata.as_str())?;
    Ok(session_name)
}

/// All changes go into the branch, which is pushed.
pub open spec fn push_changes_run(jist_branch: Seq<char>, log: Seq<Reply>) -> Run<()> {
    command::git_status_run(exchange::argv("add"@).push("-A"@), log).and_then(
        |_done: (), log: Seq<Reply>|
            command::git_success_run(
                exchange::argv("diff"@).push("--cached"@).push("--quiet"@),
                log,
            ).and_then(
                |unchanged: bool, log: Seq<Reply>|
                    if unchanged {
                        command::git_status_run(force_push(jist_branch), log)
                    } else {
                        amend_and_push_run(jist_branch, log)
                    },
            ),
    )
}

/// The push of a session that was entered.
pub open spec fn push_entered_run(branch: Seq<char>, name: Seq<char>, log: Seq<Reply>) -> Run<
    Seq<char>,
> {
    claim::ensure_claimed_by_this_machine_run(branch, log).and_then(
        |_done: (), log: Seq<Reply>|
            push_changes_run(branch, log).and_then(
                |_done: (), log: Seq<Reply>| Run::Done(name, log),
            ),
    )
}

pub open spec fn push_session_run(log: Seq<Reply>) -> Run<Seq<char>> {
    enter_session_run(
        "Check out a JIST session branch before running `jist push`."@,
        log,
    ).and_then(
        |entered: (Seq<char>, Seq<char>), log: Seq<Reply>|
            push_entered_run(entered.0, entered.1, log),
    )
}

/// Pushes the changes to the session that is checked out, if the user of this machine claims
/// it, and gives its name.
pub fn push_session(log: &mut Log) -> (result: Result<String, Stop>)
    ensures
        Run::of(result, final(log)@) == push_session_run(old(log)@),
{
    let (current_branch, session_name) = enter_session(
        log,
        "Check out a JIST session branch before running `jist push`.",
    )?;
    claim::ensure_claimed_by_this_machine(log, current_branch.as_str())?;
    command::git_status(log, Args::new("add").arg("-A"))?;
    if command::git_success(log, Args::new("diff").arg("--cached").arg("--quiet"))? {
        push_head(log, current_branch.as_str())?;
    } else {
        amend_and_push(log, current_branch.as_str())?;
    }
    Ok(session_name)
}

/// The end of the claim of a session that was entered.
pub open spec fn unclaim_entered_run(branch: Seq<char>, name: Seq<char>, log: Seq<Reply>) -> Run<
    Seq<char>,
> {
    claim::ensure_claimed_by_this_machine_run(branch, log).and_then(
        |_done: (), log: Seq<Reply>|
            record_metadata_run(branch, "initialized=true\n"@, log).and_then(
                |_done: (), log: Seq<Reply>| Run::Done(name, log),
            ),
    )
}

pub open spec fn unclaim_session_run(log: Seq<Reply>) -> Run<Seq<char>> {
    enter_session_run(
        "Check out a JIST session branch before running `jist unclaim`."@,
        log,
    ).and_then(
        |entered: (Seq<char>, Seq<char>), log: Seq<Reply>|
            unclaim_entered_run(entered.0, entered.1, log),
    )
}

/// Gives up the claim of the session that is checked out, and gives its name.
pub fn unclaim_session(log: &mut Log) -> (result: Result<String, Stop>)
    ensures
        Run::of(result, final(log)@) == unclaim_session_run(old(log)@),
{
    let (current_branch, session_name) = enter_session(
        log,
        "Check out a JIST session branch before running `jist unclaim`.",
    )?;
    claim::ensure_claimed_by_this_machine(log, current_branch.as_str())?;
    record_metadata(log, current_branch.as_str(), claim::unclaimed_metadata())?;
    Ok(session_name)
}

} // verus!
