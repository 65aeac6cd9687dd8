//! The repository that a session belongs to, and the private one that holds the sessions.

use crate::claim::JIST_REMOTE;
use crate::command;
use crate::exchange;
use crate::exchange::{Args, Log, Reply, Run, Stop};
use crate::session;
use crate::text;
use vstd::prelude::*;

verus! {

pub open spec fn repository_name_run(log: Seq<Reply>) -> Run<Seq<char>> {
    command::gh_output_run(
        exchange::argv("repo"@).push("view"@).push("--json"@).push("name"@).push("--jq"@).push(
            ".name"@,
        ),
        log,
    )
}

/// The name of this repository.
pub fn repository_name(log: &mut Log) -> (result: Result<String, Stop>)
    ensures
        Run::of(result, final(log)@) == repository_name_run(old(log)@),
{
    command::gh_output(
        log,
        Args::new("repo").arg("view").arg("--json").arg("name").arg("--jq").arg(".name"),
    )
}

pub open spec fn original_repository_name_run(log: Seq<Reply>) -> Run<Seq<char>> {
    command::gh_output_run(
        exchange::argv("repo"@).push("view"@).push("--json"@).push("nameWithOwner"@).push(
            "--jq"@,
        ).push(".nameWithOwner"@),
        log,
    )
}

/// The owner and the name of this repository.
pub fn original_repository_name(log: &mut Log) -> (result: Result<String, Stop>)
    ensures
        Run::of(result, final(log)@) == original_repository_name_run(old(log)@),
{
    command::gh_output(
        log,
        Args::new("repo").arg("view").arg("--json").arg("nameWithOwner").arg("--jq").arg(
            ".nameWithOwner",
        ),
    )
}

pub open spec fn jist_repository_name_run(source_repo_name: Seq<char>, log: Seq<Reply>) -> Run<
    Seq<char>,
> {
    command::gh_output_run(
        exchange::argv("api"@).push("user"@).push("--jq"@).push(".login"@),
        log,
    ).and_then(
        |owner: Seq<char>, log: Seq<Reply>|
            Run::Done(owner + "/jist-"@ + source_repo_name, log),
    )
}

/// The owner and the name of the private repository that holds the sessions.
pub fn jist_repository_name(log: &mut Log, source_repo_name: &str) -> (result: Result<
    String,
    Stop,
>)
    ensures
        Run::of(result, final(log)@) == jist_repository_name_run(source_repo_name@, old(log)@),
{
    let owner = command::gh_output(log, Args::new("api").arg("user").arg("--jq").arg(".login"))?;
    Ok(owner.concat("/jist-").concat(source_repo_name))
}

pub open spec fn commit_url(repository: Seq<char>, commit: Seq<char>) -> Seq<char> {
    "https://github.com/"@ + repository + "/commit/"@ + commit
}

pub fn github_commit_url(repository: &str, commit: &str) -> (result: String)
    ensures
        result@ == commit_url(repository@, commit@),
{
    "https://github.com/".to_owned().concat(repository).concat("/commit/").concat(commit)
}

/// The page of a session; `original_repository` has to be an owner and a name.
pub open spec fn session_url(original_repository: Seq<char>, session_name: Seq<char>) -> Result<
    Seq<char>,
    Seq<char>,
> {
    match text::split_once(original_repository, '/') {
        Some((owner, name)) => Ok(
            "https://jisthub.com/"@ + owner + "/"@ + name + "/session/"@ + session::escaped(
                session_name,
            ),
        ),
        None => Err("Could not parse repository `"@ + original_repository + "`."@),
    }
}

pub fn jisthub_session_url(original_repository: &str, session_name: &str) -> (result: Result<
    String,
    String,
>)
    ensures
        match result {
            Ok(url) => session_url(original_repository@, session_name@) == Ok::<
                Seq<char>,
                Seq<char>,
            >(url@),
            Err(message) => session_url(original_repository@, session_name@) == Err::<
                Seq<char>,
                Seq<char>,
            >(message@),
        },
{
    match text::cut(original_repository, '/') {
        Some((owner, repository_name)) => Ok(
            "https://jisthub.com/".to_owned().concat(owner).concat("/").concat(
                repository_name,
            ).concat("/session/").concat(session::escape_ref_part(session_name).as_str()),
        ),
        None => Err(
            "Could not parse repository `".to_owned().concat(original_repository).concat("`."),
        ),
    }
}

pub open spec fn short_commit_run(commit: Seq<char>, log: Seq<Reply>) -> Run<Seq<char>> {
    command::git_output_run(
        exchange::argv("rev-parse"@).push("--short"@).push(commit),
        None,
        log,
    )
}

/// The short form of a commit's name.
pub fn short_commit(log: &mut Log, commit: &str) -> (result: Result<String, Stop>)
    ensures
        Run::of(result, final(log)@) == short_commit_run(commit@, old(log)@),
{
    command::git_output(log, Args::new("rev-parse").arg("--short").arg(commit), None)
}

pub open spec fn github_short_commit_url_run(
    repository: Seq<char>,
    commit: Seq<char>,
    log: Seq<Reply>,
) -> Run<Seq<char>> {
    short_commit_run(commit, log).and_then(
        |short: Seq<char>, log: Seq<Reply>| Run::Done(commit_url(repository, short), log),
    )
}

pub fn github_short_commit_url(log: &mut Log, repository: &str, commit: &str) -> (result: Result<
    String,
    Stop,
>)
    ensures
        Run::of(result, final(log)@) == github_short_commit_url_run(
            repository@,
            commit@,
            old(log)@,
        ),
{
    let short = short_commit(log, commit)?;
    Ok(github_commit_url(repository, short.as_str()))
}

pub open spec fn ensure_private_repository_run(repository: Seq<char>, log: Seq<Reply>) -> Run<()> {
    command::gh_success_run(
        exchange::argv("repo"@).push("view"@).push(repository),
        log,
    ).and_then(
        |exists: bool, log: Seq<Reply>|
            if exists {
                Run::Done((), log)
            } else {
                command::gh_status_run(
                    exchange::argv("repo"@).push("create"@).push(repository).push("--private"@),
                    log,
                )
            },
    )
}

/// Creates the private repository unless it is there.
pub fn ensure_private_repository(log: &mut Log, repository: &str) -> (result: Result<(), Stop>)
    ensures
        Run::of(result, final(log)@) == ensure_private_repository_run(repository@, old(log)@),
{
    if command::gh_success(log, Args::new("repo").arg("view").arg(repository))? {
        return Ok(());
    }
    command::gh_status(log, Args::new("repo").arg("create").arg(repository).arg("--private"))
}

pub open spec fn remote_url_of(repository: Seq<char>) -> Seq<char> {
    "https://github.com/"@ + repository + ".git"@
}

pub open spec fn ensure_jist_remote_run(repository: Seq<char>, log: Seq<Reply>) -> Run<()> {
    let remote_url = remote_url_of(repository);
    match command::git_output_run(
        exchange::argv("remote"@).push("get-url"@).push(JIST_REMOTE@),
        None,
        log,
    ) {
        Run::Done(current_url, log) => if current_url == remote_url {
            Run::Done((), log)
        } else {
            command::git_status_run(
                exchange::argv("remote"@).push("set-url"@).push(JIST_REMOTE@).push(remote_url),
                log,
            )
        },
        Run::Failed(_, log) => command::git_status_run(
            exchange::argv("remote"@).push("add"@).push(JIST_REMOTE@).push(remote_url),
            log,
        ),
        Run::Asks(request) => Run::Asks(request),
    }
}

/// Lets the remote of the sessions point to the private repository.
pub fn ensure_jist_remote(log: &mut Log, repository: &str) -> (result: Result<(), Stop>)
    ensures
        Run::of(result, final(log)@) == ensure_jist_remote_run(repository@, old(log)@),
{
    let remote_url = "https://github.com/".to_owned().concat(repository).concat(".git");
    match command::git_output(log, Args::new("remote").arg("get-url").arg(JIST_REMOTE), None) {
        Ok(current_url) => if current_url == remote_url {
            Ok(())
        } else {
            command::git_status(
                log,
                Args::new("remote").arg("set-url").arg(JIST_REMOTE).arg(remote_url.as_str()),
            )
        },
        Err(Stop::Fail(_)) => command::git_status(
            log,
            Args::new("remote").arg("add").arg(JIST_REMOTE).arg(remote_url.as_str()),
        ),
        Err(Stop::Ask(request)) => Err(Stop::Ask(request)),
    }
}

/// The name of the private repository of this one.
pub open spec fn private_name_run(log: Seq<Reply>) -> Run<Seq<char>> {
    repository_name_run(log).and_then(
        |source: Seq<char>, log: Seq<Reply>| jist_repository_name_run(source, log),
    )
}

/// The start of every workflow on the sessions' remote: the private repository gets its name,
/// and the remote points to it.
pub open spec fn reach_remote_run(log: Seq<Reply>) -> Run<()> {
    private_name_run(log).and_then(
        |repository: Seq<char>, log: Seq<Reply>| ensure_jist_remote_run(repository, log),
    )
}

/// Lets the remote of the sessions point to the private repository of this one.
pub fn reach_remote(log: &mut Log) -> (result: Result<(), Stop>)
    ensures
        Run::of(result, final(log)@) == reach_remote_run(old(log)@),
{
    let source_repo_name = repository_name(log)?;
    let repository = jist_repository_name(log, source_repo_name.as_str())?;
    ensure_jist_remote(log, repository.as_str())
}

pub open spec fn open_remote_run(log: Seq<Reply>) -> Run<()> {
    command::ensure_gh_installed_run(log).and_then(
        |_done: (), log: Seq<Reply>| reach_remote_run(log),
    )
}

/// Lets the remote of the sessions point to the private repository, once it is clear that
/// `gh` can be started.
pub fn open_remote(log: &mut Log) -> (result: Result<(), Stop>)
    ensures
        Run::of(result, final(log)@) == open_remote_run(old(log)@),
{
    command::ensure_gh_installed(log)?;
    reach_remote(log)
}

} // verus!
