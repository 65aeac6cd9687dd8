//! What it takes to start, check out, delete and list sessions, word for word.

use crate::claim;
use crate::command;
use crate::exchange::{CommandLineView, Program, Reply, RequestView, Run};
use crate::laws::dialogue;
use crate::laws::dialogue::Turn;
use crate::laws::replay;
use crate::laws::transcripts;
use crate::repository;
use crate::session;
use crate::session::SessionInfoView;
use crate::text;
use crate::workflow;
use vstd::prelude::*;

verus! {

/// The branch was fetched and checked out: the one of that name here, or else a new one that
/// tracks the remote branch.
pub open spec fn is_checkout(d: Seq<Turn>, branch: Seq<char>) -> bool {
    &&& d.len() == 3
    &&& transcripts::is_fetch(d[0], branch)
    &&& d[1].request == dialogue::git(
        seq!["show-ref"@, "--verify"@, "--quiet"@, "refs/heads/"@ + branch],
    )
    &&& dialogue::is_ended(d[1].reply)
    &&& dialogue::ran(
        d[2],
        dialogue::git(
            if dialogue::is_success(d[1].reply) {
                seq!["checkout"@, branch]
            } else {
                seq!["checkout"@, "--track"@, "-b"@, branch, "jist/"@ + branch]
            },
        ),
    )
}

pub(crate) proof fn lemma_checkout(d: Seq<Turn>, branch: Seq<char>)
    requires
        dialogue::succeeds(
            |log: Seq<Reply>| workflow::checkout_jist_branch_run(branch, log),
            d,
            (),
        ),
    ensures
        is_checkout(d, branch),
{
    reveal_strlit("jist");
    reveal_strlit("/");
    reveal_strlit("jist/");
    assert(claim::JIST_REMOTE@ + "/"@ + branch =~= "jist/"@ + branch);
    transcripts::lemma_fetch_spec(branch);
    dialogue::lemma_words();
    dialogue::lemma_replies();
    transcripts::lemma_steps(
        |log: Seq<Reply>| workflow::checkout_jist_branch_run(branch, log),
        d,
        (),
    );
}

/// A session was checked out: git showed no change in the working tree before, and the branch
/// of that session was fetched and checked out.
pub open spec fn is_session_checkout(d: Seq<Turn>, session_name: Seq<char>) -> bool {
    &&& d.len() == 4
    &&& dialogue::answered(d[0], dialogue::git_query(seq!["status"@, "--porcelain"@]))
    &&& dialogue::output_of(d[0].reply).len() == 0
    &&& is_checkout(d.skip(1), "jist-"@ + session::escaped(session_name))
}

/// Whenever a session is checked out, git showed no change in the working tree before, and
/// the branch of that session was fetched and checked out.
pub proof fn law_checkout_transcript(session_name: Seq<char>, d: Seq<Turn>)
    requires
        dialogue::succeeds(
            |log: Seq<Reply>| workflow::checkout_session_run(session_name, log),
            d,
            (),
        ),
    ensures
        is_session_checkout(d, session_name),
{
    let first = |log: Seq<Reply>| workflow::ensure_clean_worktree_run(log);
    assert forall|log: Seq<Reply>, more: Seq<Reply>| #[trigger]
        replay::replays(first, log, more) by {
        replay::lemma_clean_worktree(log, more);
    }
    let branch = session::branch_of(session_name);
    let cut = dialogue::lemma_split(
        |log: Seq<Reply>| workflow::checkout_session_run(session_name, log),
        first,
        |_done: (), log: Seq<Reply>| workflow::checkout_jist_branch_run(branch, log),
        d,
        (),
    );
    dialogue::lemma_words();
    dialogue::lemma_replies();
    transcripts::lemma_steps(first, d.take(cut.0), ());
    lemma_checkout(d.skip(cut.0), branch);
}

/// The private repository is there, and the remote `jist` points to it: its name comes from
/// `gh`, and where it is missing it is created as a private one.
pub open spec fn is_prepared(d: Seq<Turn>) -> bool {
    let repository = dialogue::output_of(d[2].reply) + "/jist-"@ + dialogue::output_of(d[1].reply);
    let created = if dialogue::is_success(d[3].reply) { 4int } else { 5int };
    &&& d.len() > created
    &&& transcripts::is_gh_check(d[0])
    &&& transcripts::is_naming(d.subrange(1, 3))
    &&& d[3].request == dialogue::gh(seq!["repo"@, "view"@, repository])
    &&& dialogue::is_ended(d[3].reply)
    &&& !dialogue::is_success(d[3].reply) ==> dialogue::ran(
        d[4],
        dialogue::gh(seq!["repo"@, "create"@, repository, "--private"@]),
    )
    &&& transcripts::is_pointing(d.skip(created), repository)
}

proof fn lemma_private(d: Seq<Turn>, repository: Seq<char>)
    requires
        dialogue::succeeds(
            |log: Seq<Reply>| repository::ensure_private_repository_run(repository, log),
            d,
            (),
        ),
    ensures
        d.len() == if dialogue::is_success(d[0].reply) { 1int } else { 2int },
        d[0].request == dialogue::gh(seq!["repo"@, "view"@, repository]),
        dialogue::is_ended(d[0].reply),
        !dialogue::is_success(d[0].reply) ==> dialogue::ran(
            d[1],
            dialogue::gh(seq!["repo"@, "create"@, repository, "--private"@]),
        ),
{
    dialogue::lemma_words();
    dialogue::lemma_replies();
    transcripts::lemma_steps(
        |log: Seq<Reply>| repository::ensure_private_repository_run(repository, log),
        d,
        (),
    );
}

proof fn lemma_prepared(d: Seq<Turn>)
    requires
        dialogue::succeeds(|log: Seq<Reply>| workflow::prepare_remote_run(log), d, ()),
    ensures
        is_prepared(d),
{
    let first = |log: Seq<Reply>| command::ensure_gh_installed_run(log);
    assert forall|log: Seq<Reply>, more: Seq<Reply>| #[trigger]
        replay::replays(first, log, more) by {
        replay::lemma_gh_installed(log, more);
    }
    let cut = dialogue::lemma_split(
        |log: Seq<Reply>| workflow::prepare_remote_run(log),
        first,
        |_done: (), log: Seq<Reply>| workflow::name_and_prepare_run(log),
        d,
        (),
    );
    transcripts::lemma_gh_check(d.take(cut.0));
    let tail = d.skip(1);
    let second = |log: Seq<Reply>| repository::private_name_run(log);
    assert forall|log: Seq<Reply>, more: Seq<Reply>| #[trigger]
        replay::replays(second, log, more) by {
        replay::lemma_private_name(log, more);
    }
    let cut = dialogue::lemma_split(
        |log: Seq<Reply>| workflow::name_and_prepare_run(log),
        second,
        |repository: Seq<char>, log: Seq<Reply>| workflow::private_remote_run(repository, log),
        tail,
        (),
    );
    let repository = cut.1;
    transcripts::lemma_naming(tail.take(cut.0), repository);
    assert(tail.take(2) =~= d.subrange(1, 3));
    let tail = tail.skip(2);
    let third = |log: Seq<Reply>| repository::ensure_private_repository_run(repository, log);
    assert forall|log: Seq<Reply>, more: Seq<Reply>| #[trigger]
        replay::replays(third, log, more) by {
        replay::lemma_log();
    }
    let cut = dialogue::lemma_split(
        |log: Seq<Reply>| workflow::private_remote_run(repository, log),
        third,
        |_done: (), log: Seq<Reply>| repository::ensure_jist_remote_run(repository, log),
        tail,
        (),
    );
    lemma_private(tail.take(cut.0), repository);
    transcripts::lemma_pointing(tail.skip(cut.0), repository);
    assert(tail.skip(cut.0) =~= d.skip(3 + cut.0));
}

/// A command of `git` with an index file of its own.
pub open spec fn git_with_index(
    args: Seq<Seq<char>>,
    index_file: Seq<char>,
    collect: bool,
) -> RequestView {
    RequestView::Command(
        CommandLineView {
            program: Program::Git,
            args,
            index_file: Some(index_file),
            stdin: None,
            collect,
        },
    )
}

/// A commit was made on top of the one that is checked out. It holds the metadata of a session
/// that nobody claims, and it was made in an index file of its own, which was removed again.
pub open spec fn is_first_commit(d: Seq<Turn>, session_name: Seq<char>, commit: Seq<char>) -> bool {
    let head = dialogue::output_of(d[0].reply);
    let index_name = "jist-init-index-"@ + text::decimal(d[1].reply->Process_0 as nat);
    let index_file = d[2].reply->Path_0@;
    let blob = dialogue::output_of(d[4].reply);
    let tree = dialogue::output_of(d[6].reply);
    &&& d.len() == 9
    &&& dialogue::answered(d[0], dialogue::git_query(seq!["rev-parse"@, "HEAD"@]))
    &&& d[1].request == RequestView::ProcessId && d[1].reply is Process
    &&& d[2].request == RequestView::TempPath(index_name) && d[2].reply is Path
    &&& dialogue::ran(d[3], git_with_index(seq!["read-tree"@, "HEAD"@], index_file, false))
    &&& dialogue::answered(
        d[4],
        RequestView::Command(
            CommandLineView {
                program: Program::Git,
                args: seq!["hash-object"@, "-w"@, "--stdin"@],
                index_file: None,
                stdin: Some("initialized=true\n"@),
                collect: true,
            },
        ),
    )
    &&& dialogue::ran(
        d[5],
        git_with_index(
            seq!["update-index"@, "--add"@, "--cacheinfo"@, "100644"@, blob, ".jist-meta"@],
            index_file,
            false,
        ),
    )
    &&& dialogue::answered(d[6], git_with_index(seq!["write-tree"@], index_file, true))
    &&& dialogue::answered(
        d[7],
        dialogue::git_query(
            seq!["commit-tree"@, tree, "-p"@, head, "-m"@, "WIP: "@ + session_name],
        ),
    )
    &&& commit == dialogue::output_of(d[7].reply)
    &&& d[8].request == RequestView::RemoveTempFile(index_name) && d[8].reply is Outcome
}

proof fn lemma_index(d: Seq<Turn>, index: (Seq<char>, u32, Seq<char>))
    requires
        dialogue::succeeds(|log: Seq<Reply>| workflow::index_file_run(log), d, index),
    ensures
        d.len() == 3,
        dialogue::answered(d[0], dialogue::git_query(seq!["rev-parse"@, "HEAD"@])),
        index.0 == dialogue::output_of(d[0].reply),
        d[1].request == RequestView::ProcessId,
        d[1].reply == Reply::Process(index.1),
        d[2].request == RequestView::TempPath(
            "jist-init-index-"@ + text::decimal(index.1 as nat),
        ),
        d[2].reply matches Reply::Path(path) && path@ == index.2,
{
    dialogue::lemma_words();
    dialogue::lemma_replies();
    transcripts::lemma_steps(|log: Seq<Reply>| workflow::index_file_run(log), d, index);
}

proof fn lemma_commit_steps(
    d: Seq<Turn>,
    session_name: Seq<char>,
    head: Seq<char>,
    index_file: Seq<char>,
    index_name: Seq<char>,
    commit: Seq<char>,
)
    requires
        dialogue::succeeds(
            |log: Seq<Reply>|
                workflow::cleaned_up_run(
                    workflow::commit_metadata_run(session_name, head, index_file, log),
                    index_name,
                ),
            d,
            commit,
        ),
    ensures
        d.len() == 6,
        dialogue::ran(d[0], git_with_index(seq!["read-tree"@, "HEAD"@], index_file, false)),
        dialogue::answered(
            d[1],
            RequestView::Command(
                CommandLineView {
                    program: Program::Git,
                    args: seq!["hash-object"@, "-w"@, "--stdin"@],
                    index_file: None,
                    stdin: Some("initialized=true\n"@),
                    collect: true,
                },
            ),
        ),
        dialogue::ran(
            d[2],
            git_with_index(
                seq![
                    "update-index"@,
                    "--add"@,
                    "--cacheinfo"@,
                    "100644"@,
                    dialogue::output_of(d[1].reply),
                    ".jist-meta"@,
                ],
                index_file,
                false,
            ),
        ),
        dialogue::answered(d[3], git_with_index(seq!["write-tree"@], index_file, true)),
        dialogue::answered(
            d[4],
            dialogue::git_query(
                seq![
                    "commit-tree"@,
                    dialogue::output_of(d[3].reply),
                    "-p"@,
                    head,
                    "-m"@,
                    "WIP: "@ + session_name,
                ],
            ),
        ),
        commit == dialogue::output_of(d[4].reply),
        d[5].request == RequestView::RemoveTempFile(index_name),
        d[5].reply is Outcome,
{
    dialogue::lemma_words();
    dialogue::lemma_replies();
    let w = |log: Seq<Reply>|
        workflow::cleaned_up_run(
            workflow::commit_metadata_run(session_name, head, index_file, log),
            index_name,
        );
    transcripts::lemma_steps(w, d, commit);
    assert(d.len() > 6 ==> w(dialogue::replies(d).take(6)) is Asks);
}

proof fn lemma_first_commit(d: Seq<Turn>, session_name: Seq<char>, commit: Seq<char>)
    requires
        dialogue::succeeds(
            |log: Seq<Reply>| workflow::create_jist_meta_commit_run(session_name, log),
            d,
            commit,
        ),
    ensures
        is_first_commit(d, session_name, commit),
{
    let first = |log: Seq<Reply>| workflow::index_file_run(log);
    assert forall|log: Seq<Reply>, more: Seq<Reply>| #[trigger]
        replay::replays(first, log, more) by {
        replay::lemma_index_file(log, more);
    }
    let next = |index: (Seq<char>, u32, Seq<char>), log: Seq<Reply>|
        workflow::cleaned_up_run(
            workflow::commit_metadata_run(session_name, index.0, index.2, log),
            workflow::index_name(index.1),
        );
    let cut = dialogue::lemma_split(
        |log: Seq<Reply>| workflow::create_jist_meta_commit_run(session_name, log),
        first,
        next,
        d,
        commit,
    );
    let index = cut.1;
    lemma_index(d.take(cut.0), index);
    lemma_commit_steps(
        d.skip(cut.0),
        session_name,
        index.0,
        index.2,
        workflow::index_name(index.1),
        commit,
    );
}

/// The commit of the session was looked up on the remote.
pub open spec fn is_lookup(turn: Turn, branch: Seq<char>) -> bool {
    dialogue::answered(
        turn,
        dialogue::git_query(seq!["ls-remote"@, "--heads"@, "jist"@, branch]),
    )
}

pub(crate) proof fn lemma_lookup(d: Seq<Turn>, branch: Seq<char>, found: Option<Seq<char>>)
    requires
        dialogue::succeeds(
            |log: Seq<Reply>| session::remote_branch_commit_run(branch, log),
            d,
            found,
        ),
    ensures
        d.len() == 1,
        is_lookup(d[0], branch),
        found is None <==> dialogue::output_of(d[0].reply).len() == 0,
        found matches Some(commit) ==> text::split_once(
            text::lines(dialogue::output_of(d[0].reply))[0],
            '\t',
        ) matches Some((front, _)) && front == commit,
{
    dialogue::lemma_words();
    dialogue::lemma_replies();
    transcripts::lemma_steps(
        |log: Seq<Reply>| session::remote_branch_commit_run(branch, log),
        d,
        found,
    );
}

/// A session was started: the private repository is there and the remote points to it, a
/// branch is checked out, and the session was looked up on the remote. Where it is missing,
/// its first commit was made and pushed, not by force, before its branch was fetched and
/// checked out.
pub open spec fn is_start(d: Seq<Turn>, session_name: Seq<char>, commit: Seq<char>, k: int) -> bool {
    let branch = "jist-"@ + session::escaped(session_name);
    let listed = dialogue::output_of(d[k + 1].reply);
    &&& 0 <= k && k + 5 <= d.len()
    &&& is_prepared(d.take(k))
    &&& dialogue::answered(d[k], dialogue::git_query(seq!["branch"@, "--show-current"@]))
    &&& dialogue::output_of(d[k].reply).len() > 0
    &&& is_lookup(d[k + 1], branch)
    &&& if listed.len() == 0 {
        &&& d.len() == k + 15
        &&& is_first_commit(d.subrange(k + 2, k + 11), session_name, commit)
        &&& dialogue::ran(
            d[k + 11],
            dialogue::git(seq!["push"@, "jist"@, commit + ":refs/heads/"@ + branch]),
        )
        &&& is_checkout(d.skip(k + 12), branch)
    } else {
        &&& d.len() == k + 5
        &&& text::split_once(text::lines(listed)[0], '\t') matches Some((front, _)) && front
            == commit
        &&& is_checkout(d.skip(k + 2), branch)
    }
}

/// Whenever a session is started, it was looked up on the private remote first, and a missing
/// one was created there before anything was fetched or checked out.
#[verifier::spinoff_prover]
pub proof fn law_start_transcript(session_name: Seq<char>, d: Seq<Turn>, commit: Seq<char>) -> (k:
    int)
    requires
        dialogue::succeeds(
            |log: Seq<Reply>| workflow::start_jist_session_run(session_name, log),
            d,
            commit,
        ),
    ensures
        is_start(d, session_name, commit, k),
{
    let first = |log: Seq<Reply>| workflow::prepare_remote_run(log);
    assert forall|log: Seq<Reply>, more: Seq<Reply>| #[trigger]
        replay::replays(first, log, more) by {
        replay::lemma_prepare_remote(log, more);
    }
    let prepared = |log: Seq<Reply>| workflow::start_prepared_run(session_name, log);
    let cut = dialogue::lemma_split(
        |log: Seq<Reply>| workflow::start_jist_session_run(session_name, log),
        first,
        |_done: (), log: Seq<Reply>| workflow::start_prepared_run(session_name, log),
        d,
        commit,
    );
    let k = cut.0;
    lemma_prepared(d.take(k));
    let tail = d.skip(k);
    let second = |log: Seq<Reply>| session::current_branch_run(log);
    assert forall|log: Seq<Reply>, more: Seq<Reply>| #[trigger]
        replay::replays(second, log, more) by {
        replay::lemma_current_branch(log, more);
    }
    let next = |branch: Seq<char>, log: Seq<Reply>|
        if branch.len() == 0 {
            Run::Failed("Cannot initialize JIST from a detached HEAD."@, log)
        } else {
            workflow::start_on_branch_run(session_name, log)
        };
    let cut = dialogue::lemma_split(prepared, second, next, tail, commit);
    transcripts::lemma_current_branch(tail.take(cut.0), cut.1);
    let after = tail.skip(1);
    dialogue::lemma_replies();
    let then = |log: Seq<Reply>| next(cut.1, log);
    assert(then(dialogue::replies(after) + Seq::empty()) is Done);
    let branch = session::branch_of(session_name);
    let third = |log: Seq<Reply>| session::remote_branch_commit_run(branch, log);
    assert forall|log: Seq<Reply>, more: Seq<Reply>| #[trigger]
        replay::replays(third, log, more) by {
        replay::lemma_branch_commit(branch, log, more);
    }
    let cut = dialogue::lemma_split(
        then,
        third,
        |found: Option<Seq<char>>, log: Seq<Reply>|
            workflow::start_found_run(session_name, found, log),
        after,
        commit,
    );
    let found = cut.1;
    lemma_lookup(after.take(cut.0), branch, found);
    let rest = after.skip(1);
    lemma_found(rest, session_name, found, commit);
    if found is None {
        assert(rest.take(9) =~= d.subrange(k + 2, k + 11));
        assert(rest.skip(10) =~= d.skip(k + 12));
    } else {
        assert(rest =~= d.skip(k + 2));
    }
    k
}

proof fn lemma_found(
    d: Seq<Turn>,
    session_name: Seq<char>,
    found: Option<Seq<char>>,
    commit: Seq<char>,
)
    requires
        dialogue::succeeds(
            |log: Seq<Reply>| workflow::start_found_run(session_name, found, log),
            d,
            commit,
        ),
    ensures
        ({
            let branch = session::branch_of(session_name);
            match found {
                Some(there) => d.len() == 3 && there == commit && is_checkout(d, branch),
                None => {
                    &&& d.len() == 13
                    &&& is_first_commit(d.take(9), session_name, commit)
                    &&& dialogue::ran(
                        d[9],
                        dialogue::git(seq!["push"@, "jist"@, commit + ":refs/heads/"@ + branch]),
                    )
                    &&& is_checkout(d.skip(10), branch)
                },
            }
        }),
{
    let branch = session::branch_of(session_name);
    let fourth = |log: Seq<Reply>| workflow::ensure_session_run(session_name, found, log);
    assert forall|log: Seq<Reply>, more: Seq<Reply>| #[trigger]
        replay::replays(fourth, log, more) by {
        replay::lemma_ensure_session(session_name, found, log, more);
    }
    let last = |commit: Seq<char>, log: Seq<Reply>|
        workflow::checkout_jist_branch_run(branch, log).and_then(
            |_done: (), log: Seq<Reply>| Run::Done(commit, log),
        );
    let cut = dialogue::lemma_split(
        |log: Seq<Reply>| workflow::start_found_run(session_name, found, log),
        fourth,
        last,
        d,
        commit,
    );
    let made = cut.1;
    let fifth = |log: Seq<Reply>| workflow::checkout_jist_branch_run(branch, log);
    assert forall|log: Seq<Reply>, more: Seq<Reply>| #[trigger]
        replay::replays(fifth, log, more) by {
        replay::lemma_checkout_branch(branch, log, more);
    }
    let done = dialogue::lemma_mapped(
        |log: Seq<Reply>| last(made, log),
        fifth,
        |_done: (), log: Seq<Reply>| Run::Done(made, log),
        d.skip(cut.0),
        commit,
    );
    lemma_checkout(d.skip(cut.0), branch);
    lemma_ensured(d.take(cut.0), session_name, found, made);
    if found is None {
        assert(d.take(cut.0).take(9) =~= d.take(9));
    } else {
        assert(d.skip(cut.0) =~= d);
    }
}


proof fn lemma_ensured(
    d: Seq<Turn>,
    session_name: Seq<char>,
    found: Option<Seq<char>>,
    commit: Seq<char>,
)
    requires
        dialogue::succeeds(
            |log: Seq<Reply>| workflow::ensure_session_run(session_name, found, log),
            d,
            commit,
        ),
    ensures
        match found {
            Some(there) => d.len() == 0 && there == commit,
            None => {
                &&& d.len() == 10
                &&& is_first_commit(d.take(9), session_name, commit)
                &&& dialogue::ran(
                    d[9],
                    dialogue::git(
                        seq![
                            "push"@,
                            "jist"@,
                            commit + ":refs/heads/"@ + session::branch_of(session_name),
                        ],
                    ),
                )
            },
        },
{
    dialogue::lemma_words();
    dialogue::lemma_replies();
    let whole = |log: Seq<Reply>| workflow::ensure_session_run(session_name, found, log);
    assert(whole(dialogue::replies(d) + Seq::empty()) is Done);
    if let Some(there) = found {
        if d.len() > 0 {
            assert(whole(dialogue::replies(d).take(0)) is Asks);
        }
    } else {
        let first = |log: Seq<Reply>| workflow::create_jist_meta_commit_run(session_name, log);
        assert forall|log: Seq<Reply>, more: Seq<Reply>| #[trigger]
            replay::replays(first, log, more) by {
            replay::lemma_create_commit(session_name, log, more);
        }
        let branch = session::branch_of(session_name);
        let next = |commit: Seq<char>, log: Seq<Reply>|
            command::git_status_run(workflow::first_push(commit, branch), log).and_then(
                |_done: (), log: Seq<Reply>| Run::Done(commit, log),
            );
        let cut = dialogue::lemma_split(whole, first, next, d, commit);
        lemma_first_commit(d.take(cut.0), session_name, cut.1);
        transcripts::lemma_steps(|log: Seq<Reply>| next(cut.1, log), d.skip(cut.0), commit);
    }
}

/// `gh` was started, and the remote of the sessions points to the private repository.
pub open spec fn is_opened(d: Seq<Turn>) -> bool {
    &&& d.len() >= 4
    &&& transcripts::is_gh_check(d[0])
    &&& transcripts::is_remote_setup(d.skip(1))
}

pub(crate) proof fn lemma_opened(d: Seq<Turn>)
    requires
        dialogue::succeeds(|log: Seq<Reply>| repository::open_remote_run(log), d, ()),
    ensures
        is_opened(d),
{
    let first = |log: Seq<Reply>| command::ensure_gh_installed_run(log);
    assert forall|log: Seq<Reply>, more: Seq<Reply>| #[trigger]
        replay::replays(first, log, more) by {
        replay::lemma_gh_installed(log, more);
    }
    let cut = dialogue::lemma_split(
        |log: Seq<Reply>| repository::open_remote_run(log),
        first,
        |_done: (), log: Seq<Reply>| repository::reach_remote_run(log),
        d,
        (),
    );
    transcripts::lemma_gh_check(d.take(cut.0));
    transcripts::lemma_remote_setup(d.skip(1));
}

/// All sessions were fetched, and those that are gone forgotten.
pub open spec fn is_fetch_of_all(turn: Turn) -> bool {
    dialogue::ran(
        turn,
        dialogue::git(
            seq!["fetch"@, "--prune"@, "jist"@, "+refs/heads/jist-*:refs/remotes/jist/jist-*"@],
        ),
    )
}

pub(crate) proof fn lemma_all_spec()
    ensures
        "+refs/heads/jist-*:refs/remotes/"@ + claim::JIST_REMOTE@ + "/jist-*"@
            == "+refs/heads/jist-*:refs/remotes/jist/jist-*"@,
        "refs/remotes/"@ + claim::JIST_REMOTE@ + "/jist-*"@ == "refs/remotes/jist/jist-*"@,
{
    reveal_strlit("+refs/heads/jist-*:refs/remotes/");
    reveal_strlit("+refs/heads/jist-*:refs/remotes/jist/jist-*");
    reveal_strlit("refs/remotes/");
    reveal_strlit("refs/remotes/jist/jist-*");
    reveal_strlit("jist");
    reveal_strlit("/jist-*");
    assert("+refs/heads/jist-*:refs/remotes/"@ + claim::JIST_REMOTE@ + "/jist-*"@
        =~= "+refs/heads/jist-*:refs/remotes/jist/jist-*"@);
    assert("refs/remotes/"@ + claim::JIST_REMOTE@ + "/jist-*"@ =~= "refs/remotes/jist/jist-*"@);
}

/// A session was deleted: it was there on the private remote, the user was asked by its name
/// and answered `confirm`, then its branch was deleted from the remote and the sessions were
/// fetched anew.
pub open spec fn is_delete(d: Seq<Turn>, session_name: Seq<char>, k: int) -> bool {
    let branch = "jist-"@ + session::escaped(session_name);
    let listed = dialogue::output_of(d[k].reply);
    &&& 0 <= k
    &&& d.len() == k + 5
    &&& is_opened(d.take(k))
    &&& is_lookup(d[k], branch)
    &&& listed.len() > 0
    &&& text::split_once(text::lines(listed)[0], '\t') is Some
    &&& d[k + 1].request == RequestView::Prompt(
        "Delete JIST session `"@ + session_name + "`? Type `confirm` to continue: "@,
    )
    &&& d[k + 1].reply matches Reply::Outcome(Ok(_))
    &&& d[k + 2].request == RequestView::ReadLine
    &&& d[k + 2].reply matches Reply::Line(Ok(line)) && text::trimmed(line@) == "confirm"@
    &&& dialogue::ran(
        d[k + 3],
        dialogue::git(seq!["push"@, "jist"@, ":refs/heads/"@ + branch]),
    )
    &&& is_fetch_of_all(d[k + 4])
}

/// Whenever a session is deleted, it was there on the private remote, the user was asked by
/// its name and answered `confirm`, then its branch was deleted from the remote and the
/// sessions were fetched anew.
#[verifier::spinoff_prover]
pub proof fn law_delete_transcript(session_name: Seq<char>, d: Seq<Turn>) -> (k: int)
    requires
        dialogue::succeeds(
            |log: Seq<Reply>| workflow::delete_session_run(session_name, log),
            d,
            (),
        ),
    ensures
        is_delete(d, session_name, k),
{
    let first = |log: Seq<Reply>| repository::open_remote_run(log);
    assert forall|log: Seq<Reply>, more: Seq<Reply>| #[trigger]
        replay::replays(first, log, more) by {
        replay::lemma_open_remote(log, more);
    }
    let opened = |log: Seq<Reply>| workflow::delete_opened_run(session_name, log);
    let cut = dialogue::lemma_split(
        |log: Seq<Reply>| workflow::delete_session_run(session_name, log),
        first,
        |_done: (), log: Seq<Reply>| workflow::delete_opened_run(session_name, log),
        d,
        (),
    );
    let k = cut.0;
    lemma_opened(d.take(k));
    let tail = d.skip(k);
    let branch = session::branch_of(session_name);
    let second = |log: Seq<Reply>| session::remote_branch_commit_run(branch, log);
    assert forall|log: Seq<Reply>, more: Seq<Reply>| #[trigger]
        replay::replays(second, log, more) by {
        replay::lemma_branch_commit(branch, log, more);
    }
    let next = |commit: Option<Seq<char>>, log: Seq<Reply>|
        workflow::delete_found_run(session_name, commit, log);
    let cut = dialogue::lemma_split(opened, second, next, tail, ());
    lemma_lookup(tail.take(cut.0), branch, cut.1);
    let end = tail.skip(1);
    lemma_all_spec();
    dialogue::lemma_words();
    dialogue::lemma_replies();
    transcripts::lemma_steps(|log: Seq<Reply>| next(cut.1, log), end, ());
    k
}

pub(crate) proof fn lemma_base_ref(name: Seq<char>)
    ensures
        "refs/remotes/jist/"@ + ("jist-"@ + name) + "^"@ == "refs/remotes/jist/jist-"@ + name
            + "^"@,
{
    reveal_strlit("refs/remotes/jist/");
    reveal_strlit("refs/remotes/jist/jist-");
    reveal_strlit("jist-");
    assert("refs/remotes/jist/"@ + ("jist-"@ + name) + "^"@ =~= "refs/remotes/jist/jist-"@ + name
        + "^"@);
}

/// The commits that sessions are based on were looked up, one after the other.
proof fn lemma_bases(
    found: Seq<SessionInfoView>,
    rest: Seq<SessionInfoView>,
    d: Seq<Turn>,
    all: Seq<SessionInfoView>,
)
    requires
        dialogue::succeeds(
            |log: Seq<Reply>| session::with_base_commits_run(found, rest, log),
            d,
            all,
        ),
    ensures
        d.len() == rest.len(),
        all.len() == found.len() + rest.len(),
        all.take(found.len() as int) == found,
        forall|i: int|
            0 <= i < rest.len() ==> is_based(d[i], rest[i], #[trigger] all[found.len() + i]),
    decreases rest.len(),
{
    dialogue::lemma_words();
    dialogue::lemma_replies();
    let whole = |log: Seq<Reply>| session::with_base_commits_run(found, rest, log);
    assert(whole(dialogue::replies(d) + Seq::empty()) is Done);
    if rest.len() == 0 {
        if d.len() > 0 {
            assert(whole(dialogue::replies(d).take(0)) is Asks);
        }
        assert(found.take(found.len() as int) =~= found);
    } else {
        let branch = session::branch_of(rest[0].name);
        let first = |log: Seq<Reply>| session::base_commit_run(branch, log);
        assert forall|log: Seq<Reply>, more: Seq<Reply>| #[trigger]
            replay::replays(first, log, more) by {
            replay::lemma_base_commit(branch, log, more);
        }
        let next = |base_commit: Seq<char>, log: Seq<Reply>|
            session::with_base_commits_run(
                found.push(SessionInfoView { base_commit, ..rest[0] }),
                rest.skip(1),
                log,
            );
        let cut = dialogue::lemma_split(whole, first, next, d, all);
        let base = cut.1;
        transcripts::lemma_remote_ref(branch);
        lemma_base_ref(session::escaped(rest[0].name));
        transcripts::lemma_steps(first, d.take(cut.0), base);
        let based = SessionInfoView { base_commit: base, ..rest[0] };
        lemma_bases(found.push(based), rest.skip(1), d.skip(1), all);
        let front = all.take(found.len() as int + 1);
        assert(front == found.push(based));
        assert(all.take(found.len() as int) =~= front.drop_last());
        assert forall|i: int| 0 <= i < rest.len() implies is_based(
            d[i],
            rest[i],
            #[trigger] all[found.len() + i],
        ) by {
            if i == 0 {
                assert(all[found.len() as int] == front.last());
            } else {
                let j = i - 1;
                assert(is_based(
                    d.skip(1)[j],
                    rest.skip(1)[j],
                    all[found.push(based).len() + j],
                ));
            }
        }
    }
}

/// The session `based` is the session `listed` with the commit before that of its remote
/// branch, which git was asked for.
pub open spec fn is_based(turn: Turn, listed: SessionInfoView, based: SessionInfoView) -> bool {
    &&& dialogue::answered(
        turn,
        dialogue::git_query(
            seq![
                "rev-parse"@,
                "refs/remotes/jist/jist-"@ + session::escaped(listed.name) + "^"@,
            ],
        ),
    )
    &&& based.base_commit == dialogue::output_of(turn.reply)
    &&& based.name == listed.name
    &&& based.working_commit == listed.working_commit
    &&& based.modified_at_unix_seconds == listed.modified_at_unix_seconds
}

/// The sessions were listed: fetched, then named by git with the one that changed last in
/// front, and their bases looked up in that order.
#[verifier::opaque]
pub open spec fn is_listing(d: Seq<Turn>, sessions: Seq<SessionInfoView>) -> bool {
    let k = d.len() - sessions.len() - 2;
    let listed = session::sessions_in(dialogue::output_of(d[k + 1].reply));
    &&& k >= 0
    &&& is_opened(d.take(k))
    &&& is_fetch_of_all(d[k])
    &&& dialogue::answered(
        d[k + 1],
        dialogue::git_query(
            seq![
                "for-each-ref"@,
                "--sort=-committerdate"@,
                "--format=%(refname:short)%09%(committerdate:unix)%09%(objectname)"@,
                "refs/remotes/jist/jist-*"@,
            ],
        ),
    )
    &&& listed.len() == sessions.len()
    &&& forall|i: int|
        0 <= i < sessions.len() ==> is_based(d[k + 2 + i], listed[i], #[trigger] sessions[i])
}

/// Whether the times of the last change never increase along a list.
pub open spec fn is_newest_first(sessions: Seq<SessionInfoView>) -> bool {
    forall|i: int, j: int|
        0 <= i < j < sessions.len() ==> (#[trigger] sessions[i]).modified_at_unix_seconds >= (
        #[trigger] sessions[j]).modified_at_unix_seconds
}

/// Whenever sessions are listed, git was asked for them with the one that changed last in
/// front, and they come in the order in which git named them: if git names them as it was
/// asked to, the times of their last changes never increase along the list.
pub proof fn law_list_sessions_transcript(d: Seq<Turn>, sessions: Seq<SessionInfoView>)
    requires
        dialogue::succeeds(|log: Seq<Reply>| session::list_sessions_run(log), d, sessions),
    ensures
        is_listing(d, sessions),
        is_newest_first(
            session::sessions_in(dialogue::output_of(d[d.len() - sessions.len() - 1].reply)),
        ) ==> is_newest_first(sessions),
{
    reveal(is_listing);
    let first = |log: Seq<Reply>| repository::open_remote_run(log);
    assert forall|log: Seq<Reply>, more: Seq<Reply>| #[trigger]
        replay::replays(first, log, more) by {
        replay::lemma_open_remote(log, more);
    }
    let opened = |log: Seq<Reply>| session::listed_sessions_run(log);
    let cut = dialogue::lemma_split(
        |log: Seq<Reply>| session::list_sessions_run(log),
        first,
        |_done: (), log: Seq<Reply>| session::listed_sessions_run(log),
        d,
        sessions,
    );
    let k = cut.0;
    lemma_opened(d.take(k));
    let tail = d.skip(k);
    let second = |log: Seq<Reply>| session::fetch_and_list_run(log);
    assert forall|log: Seq<Reply>, more: Seq<Reply>| #[trigger]
        replay::replays(second, log, more) by {
        replay::lemma_refs(log, more);
    }
    let cut = dialogue::lemma_split(
        opened,
        second,
        |refs: Seq<char>, log: Seq<Reply>|
            session::with_base_commits_run(Seq::empty(), session::sessions_in(refs), log),
        tail,
        sessions,
    );
    let refs = cut.1;
    lemma_refs(tail.take(cut.0), refs);
    let listed = session::sessions_in(refs);
    lemma_bases(Seq::empty(), listed, tail.skip(2), sessions);
    assert forall|i: int| 0 <= i < sessions.len() implies is_based(
        d[k + 2 + i],
        listed[i],
        #[trigger] sessions[i],
    ) by {
        assert(is_based(
            tail.skip(2)[i],
            listed[i],
            sessions[Seq::<SessionInfoView>::empty().len() + i],
        ));
    }
    if is_newest_first(listed) {
        assert forall|i: int, j: int| 0 <= i < j < sessions.len() implies (
        #[trigger] sessions[i]).modified_at_unix_seconds >= (
        #[trigger] sessions[j]).modified_at_unix_seconds by {
            assert(listed[i].modified_at_unix_seconds >= listed[j].modified_at_unix_seconds);
        }
    }
}

proof fn lemma_refs(d: Seq<Turn>, refs: Seq<char>)
    requires
        dialogue::succeeds(|log: Seq<Reply>| session::fetch_and_list_run(log), d, refs),
    ensures
        d.len() == 2,
        is_fetch_of_all(d[0]),
        dialogue::answered(
            d[1],
            dialogue::git_query(
                seq![
                    "for-each-ref"@,
                    "--sort=-committerdate"@,
                    "--format=%(refname:short)%09%(committerdate:unix)%09%(objectname)"@,
                    "refs/remotes/jist/jist-*"@,
                ],
            ),
        ),
        refs == dialogue::output_of(d[1].reply),
{
    lemma_all_spec();
    dialogue::lemma_words();
    dialogue::lemma_replies();
    transcripts::lemma_steps(|log: Seq<Reply>| session::fetch_and_list_run(log), d, refs);
}

} // verus!
