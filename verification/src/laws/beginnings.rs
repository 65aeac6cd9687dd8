//! When success is owed to a session that is started, checked out or deleted.

use crate::claim;
use crate::command;
use crate::exchange::{Reply, RequestView, Run};
use crate::laws::dialogue;
use crate::laws::dialogue::Turn;
use crate::laws::starting;
use crate::laws::success;
use crate::laws::transcripts;
use crate::laws::watching;
use crate::laws::watching::Beginning;
use crate::repository;
use crate::session;
use crate::session::SessionInfoView;
use crate::sync;
use crate::text;
use crate::work;
use crate::work::{LoopStageView, WorkStageView};
use crate::workflow;
use vstd::prelude::*;

verus! {

#[verifier::spinoff_prover]
proof fn lemma_checkout(d: Seq<Turn>, branch: Seq<char>)
    requires
        starting::is_checkout(d, branch),
    ensures
        dialogue::succeeds(
            |log: Seq<Reply>| workflow::checkout_jist_branch_run(branch, log),
            d,
            (),
        ),
{
    reveal_strlit("jist");
    reveal_strlit("/");
    reveal_strlit("jist/");
    assert(claim::JIST_REMOTE@ + "/"@ + branch =~= "jist/"@ + branch);
    transcripts::lemma_fetch_spec(branch);
    dialogue::lemma_words();
    dialogue::lemma_replies();
    dialogue::lemma_made(|log: Seq<Reply>| workflow::checkout_jist_branch_run(branch, log), d);
}

#[verifier::spinoff_prover]
proof fn lemma_clean(d: Seq<Turn>)
    requires
        d.len() == 1,
        dialogue::answered(d[0], dialogue::git_query(seq!["status"@, "--porcelain"@])),
        dialogue::output_of(d[0].reply).len() == 0,
    ensures
        dialogue::succeeds(|log: Seq<Reply>| workflow::ensure_clean_worktree_run(log), d, ()),
{
    dialogue::lemma_words();
    dialogue::lemma_replies();
    dialogue::lemma_made(|log: Seq<Reply>| workflow::ensure_clean_worktree_run(log), d);
}

/// That a session is checked out is owed where git shows no change in the working tree and
/// the commands succeed.
#[verifier::spinoff_prover]
pub proof fn law_checkout_is_owed(d: Seq<Turn>, session_name: Seq<char>)
    requires
        starting::is_session_checkout(d, session_name),
    ensures
        dialogue::succeeds(
            |log: Seq<Reply>| workflow::checkout_session_run(session_name, log),
            d,
            (),
        ),
{
    let branch = session::branch_of(session_name);
    assert(d.take(1)[0] == d[0]);
    lemma_clean(d.take(1));
    lemma_checkout(d.skip(1), branch);
    dialogue::lemma_join(
        |log: Seq<Reply>| workflow::checkout_session_run(session_name, log),
        |log: Seq<Reply>| workflow::ensure_clean_worktree_run(log),
        |_done: (), log: Seq<Reply>| workflow::checkout_jist_branch_run(branch, log),
        d,
        1,
        (),
        (),
    );
}

#[verifier::spinoff_prover]
pub(crate) proof fn lemma_opened(d: Seq<Turn>)
    requires
        starting::is_opened(d),
    ensures
        dialogue::succeeds(|log: Seq<Reply>| repository::open_remote_run(log), d, ()),
{
    assert(d.take(1)[0] == d[0]);
    success::lemma_gh_check(d.take(1));
    success::lemma_remote_setup(d.skip(1));
    dialogue::lemma_join(
        |log: Seq<Reply>| repository::open_remote_run(log),
        |log: Seq<Reply>| command::ensure_gh_installed_run(log),
        |_done: (), log: Seq<Reply>| repository::reach_remote_run(log),
        d,
        1,
        (),
        (),
    );
}

#[verifier::spinoff_prover]
pub(crate) proof fn lemma_lookup(d: Seq<Turn>, branch: Seq<char>, found: Option<Seq<char>>)
    requires
        d.len() == 1,
        starting::is_lookup(d[0], branch),
        ({
            let listed = dialogue::output_of(d[0].reply);
            match found {
                Some(commit) => listed.len() > 0 && (text::split_once(
                    text::lines(listed)[0],
                    '\t',
                ) matches Some((front, _)) && front == commit),
                None => listed.len() == 0,
            }
        }),
    ensures
        dialogue::succeeds(
            |log: Seq<Reply>| session::remote_branch_commit_run(branch, log),
            d,
            found,
        ),
{
    dialogue::lemma_words();
    dialogue::lemma_replies();
    dialogue::lemma_made(|log: Seq<Reply>| session::remote_branch_commit_run(branch, log), d);
}

#[verifier::spinoff_prover]
proof fn lemma_delete_found(d: Seq<Turn>, session_name: Seq<char>, commit: Seq<char>)
    requires
        d.len() == 4,
        d[0].request == RequestView::Prompt(
            "Delete JIST session `"@ + session_name + "`? Type `confirm` to continue: "@,
        ),
        d[0].reply matches Reply::Outcome(Ok(_)),
        d[1].request == RequestView::ReadLine,
        d[1].reply matches Reply::Line(Ok(line)) && text::trimmed(line@) == "confirm"@,
        dialogue::ran(
            d[2],
            dialogue::git(
                seq![
                    "push"@,
                    "jist"@,
                    ":refs/heads/"@ + ("jist-"@ + session::escaped(session_name)),
                ],
            ),
        ),
        starting::is_fetch_of_all(d[3]),
    ensures
        dialogue::succeeds(
            |log: Seq<Reply>| workflow::delete_found_run(session_name, Some(commit), log),
            d,
            (),
        ),
{
    starting::lemma_all_spec();
    dialogue::lemma_words();
    dialogue::lemma_replies();
    dialogue::lemma_made(
        |log: Seq<Reply>| workflow::delete_found_run(session_name, Some(commit), log),
        d,
    );
}

/// That a session is deleted is owed where it is there on the remote, the user confirms it,
/// and the commands succeed.
#[verifier::spinoff_prover]
pub proof fn law_delete_is_owed(d: Seq<Turn>, session_name: Seq<char>, k: int)
    requires
        starting::is_delete(d, session_name, k),
    ensures
        dialogue::succeeds(
            |log: Seq<Reply>| workflow::delete_session_run(session_name, log),
            d,
            (),
        ),
{
    let branch = session::branch_of(session_name);
    let listed = dialogue::output_of(d[k].reply);
    let fields = text::split_once(text::lines(listed)[0], '\t')->Some_0;
    let commit = fields.0;
    lemma_opened(d.take(k));
    let tail = d.skip(k);
    let end = tail.skip(1);
    assert(tail.take(1)[0] == d[k]);
    assert(end[0] == d[k + 1] && end[1] == d[k + 2] && end[2] == d[k + 3] && end[3] == d[k + 4]);
    lemma_lookup(tail.take(1), branch, Some(commit));
    lemma_delete_found(end, session_name, commit);
    dialogue::lemma_join(
        |log: Seq<Reply>| workflow::delete_opened_run(session_name, log),
        |log: Seq<Reply>| session::remote_branch_commit_run(branch, log),
        |commit: Option<Seq<char>>, log: Seq<Reply>|
            workflow::delete_found_run(session_name, commit, log),
        tail,
        1,
        Some(commit),
        (),
    );
    dialogue::lemma_join(
        |log: Seq<Reply>| workflow::delete_session_run(session_name, log),
        |log: Seq<Reply>| repository::open_remote_run(log),
        |_done: (), log: Seq<Reply>| workflow::delete_opened_run(session_name, log),
        d,
        k,
        (),
        (),
    );
}

#[verifier::spinoff_prover]
proof fn lemma_private(d: Seq<Turn>, repository: Seq<char>)
    requires
        1 <= d.len() <= 2,
        d.len() == if dialogue::is_success(d[0].reply) {
            1int
        } else {
            2int
        },
        d[0].request == dialogue::gh(seq!["repo"@, "view"@, repository]),
        dialogue::is_ended(d[0].reply),
        !dialogue::is_success(d[0].reply) ==> dialogue::ran(
            d[1],
            dialogue::gh(seq!["repo"@, "create"@, repository, "--private"@]),
        ),
    ensures
        dialogue::succeeds(
            |log: Seq<Reply>| repository::ensure_private_repository_run(repository, log),
            d,
            (),
        ),
{
    dialogue::lemma_words();
    dialogue::lemma_replies();
    dialogue::lemma_made(
        |log: Seq<Reply>| repository::ensure_private_repository_run(repository, log),
        d,
    );
}

#[verifier::spinoff_prover]
pub(crate) proof fn lemma_prepared(d: Seq<Turn>)
    requires
        starting::is_prepared(d),
    ensures
        dialogue::succeeds(|log: Seq<Reply>| workflow::prepare_remote_run(log), d, ()),
{
    let repository = dialogue::output_of(d[2].reply) + "/jist-"@ + dialogue::output_of(
        d[1].reply,
    );
    let n = if dialogue::is_success(d[3].reply) {
        1int
    } else {
        2int
    };
    let named = d.skip(1);
    let held = named.skip(2);
    assert(held[0] == d[3]);
    assert(n == 2 ==> held[1] == d[4]);
    lemma_private(held.take(n), repository);
    assert(held.skip(n) =~= d.skip(3 + n));
    success::lemma_pointing(held.skip(n), repository);
    dialogue::lemma_join(
        |log: Seq<Reply>| workflow::private_remote_run(repository, log),
        |log: Seq<Reply>| repository::ensure_private_repository_run(repository, log),
        |_done: (), log: Seq<Reply>| repository::ensure_jist_remote_run(repository, log),
        held,
        n,
        (),
        (),
    );
    assert(named.take(2) =~= d.subrange(1, 3));
    assert(named.take(2)[0] == d[1] && named.take(2)[1] == d[2]);
    success::lemma_naming(named.take(2));
    dialogue::lemma_join(
        |log: Seq<Reply>| workflow::name_and_prepare_run(log),
        |log: Seq<Reply>| repository::private_name_run(log),
        |repository: Seq<char>, log: Seq<Reply>|
            workflow::private_remote_run(repository, log),
        named,
        2,
        repository,
        (),
    );
    assert(d.take(1)[0] == d[0]);
    success::lemma_gh_check(d.take(1));
    dialogue::lemma_join(
        |log: Seq<Reply>| workflow::prepare_remote_run(log),
        |log: Seq<Reply>| command::ensure_gh_installed_run(log),
        |_done: (), log: Seq<Reply>| workflow::name_and_prepare_run(log),
        d,
        1,
        (),
        (),
    );
}

#[verifier::spinoff_prover]
proof fn lemma_index(d: Seq<Turn>, session_name: Seq<char>, commit: Seq<char>)
    requires
        starting::is_first_commit(d, session_name, commit),
    ensures
        dialogue::succeeds(
            |log: Seq<Reply>| workflow::index_file_run(log),
            d.take(3),
            (
                dialogue::output_of(d[0].reply),
                d[1].reply->Process_0,
                d[2].reply->Path_0@,
            ),
        ),
{
    let front = d.take(3);
    assert(front[0] == d[0] && front[1] == d[1] && front[2] == d[2]);
    dialogue::lemma_words();
    dialogue::lemma_replies();
    dialogue::lemma_made(|log: Seq<Reply>| workflow::index_file_run(log), front);
}

#[verifier::spinoff_prover]
proof fn lemma_commit(d: Seq<Turn>, session_name: Seq<char>, commit: Seq<char>)
    requires
        starting::is_first_commit(d, session_name, commit),
    ensures
        dialogue::succeeds(
            |log: Seq<Reply>|
                workflow::commit_metadata_run(
                    session_name,
                    dialogue::output_of(d[0].reply),
                    d[2].reply->Path_0@,
                    log,
                ),
            d.subrange(3, 8),
            commit,
        ),
{
    let made = d.subrange(3, 8);
    assert(made[0] == d[3] && made[1] == d[4] && made[2] == d[5] && made[3] == d[6] && made[4]
        == d[7]);
    dialogue::lemma_words();
    dialogue::lemma_replies();
    dialogue::lemma_made(
        |log: Seq<Reply>|
            workflow::commit_metadata_run(
                session_name,
                dialogue::output_of(d[0].reply),
                d[2].reply->Path_0@,
                log,
            ),
        made,
    );
}

#[verifier::spinoff_prover]
proof fn lemma_cleaned(
    d: Seq<Turn>,
    session_name: Seq<char>,
    head: Seq<char>,
    index_path: Seq<char>,
    name: Seq<char>,
    commit: Seq<char>,
)
    requires
        d.len() >= 1,
        dialogue::succeeds(
            |log: Seq<Reply>|
                workflow::commit_metadata_run(session_name, head, index_path, log),
            d.drop_last(),
            commit,
        ),
        d.last().request == RequestView::RemoveTempFile(name),
        d.last().reply is Outcome,
    ensures
        dialogue::succeeds(
            |log: Seq<Reply>|
                workflow::cleaned_up_run(
                    workflow::commit_metadata_run(session_name, head, index_path, log),
                    name,
                ),
            d,
            commit,
        ),
{
    let made = |log: Seq<Reply>|
        workflow::commit_metadata_run(session_name, head, index_path, log);
    let whole = |log: Seq<Reply>|
        workflow::cleaned_up_run(
            workflow::commit_metadata_run(session_name, head, index_path, log),
            name,
        );
    let m = d.len() - 1;
    let all = dialogue::replies(d);
    let front = dialogue::replies(d.drop_last());
    assert forall|n: int| 0 <= n < d.len() implies whole(
        #[trigger] dialogue::replies(d).take(n),
    ) == Run::<Seq<char>>::Asks(d[n].request) by {
        if n < m {
            assert(all.take(n) =~= front.take(n));
            assert(made(front.take(n)) == Run::<Seq<char>>::Asks(d.drop_last()[n].request));
        } else {
            assert(all.take(n) =~= front + Seq::empty());
            assert(made(front + Seq::empty()) == Run::Done(commit, Seq::<Reply>::empty()));
        }
    }
    assert forall|rest: Seq<Reply>| whole(#[trigger] (dialogue::replies(d) + rest)) == Run::Done(
        commit,
        rest,
    ) by {
        let left = seq![d[m].reply] + rest;
        assert(all + rest =~= front + left);
        assert(made(front + left) == Run::Done(commit, left));
        assert(left.skip(1) =~= rest);
        assert(left[0] is Outcome);
    }
}

#[verifier::spinoff_prover]
proof fn lemma_created(d: Seq<Turn>, session_name: Seq<char>, commit: Seq<char>)
    requires
        starting::is_first_commit(d, session_name, commit),
    ensures
        dialogue::succeeds(
            |log: Seq<Reply>| workflow::create_jist_meta_commit_run(session_name, log),
            d,
            commit,
        ),
{
    let head = dialogue::output_of(d[0].reply);
    let process = d[1].reply->Process_0;
    let path = d[2].reply->Path_0@;
    let tail = d.skip(3);
    lemma_index(d, session_name, commit);
    lemma_commit(d, session_name, commit);
    assert(tail.drop_last() =~= d.subrange(3, 8));
    assert(tail.last() == d[8]);
    lemma_cleaned(tail, session_name, head, path, workflow::index_name(process), commit);
    let next = |index: (Seq<char>, u32, Seq<char>), log: Seq<Reply>|
        workflow::cleaned_up_run(
            workflow::commit_metadata_run(session_name, index.0, index.2, log),
            workflow::index_name(index.1),
        );
    dialogue::lemma_same(
        |log: Seq<Reply>|
            workflow::cleaned_up_run(
                workflow::commit_metadata_run(session_name, head, path, log),
                workflow::index_name(process),
            ),
        |log: Seq<Reply>| next((head, process, path), log),
        tail,
        commit,
    );
    dialogue::lemma_join(
        |log: Seq<Reply>| workflow::create_jist_meta_commit_run(session_name, log),
        |log: Seq<Reply>| workflow::index_file_run(log),
        next,
        d,
        3,
        (head, process, path),
        commit,
    );
}

#[verifier::spinoff_prover]
proof fn lemma_first_push(d: Seq<Turn>, session_name: Seq<char>, commit: Seq<char>)
    requires
        d.len() == 1,
        dialogue::ran(
            d[0],
            dialogue::git(
                seq![
                    "push"@,
                    "jist"@,
                    commit + ":refs/heads/"@ + ("jist-"@ + session::escaped(session_name)),
                ],
            ),
        ),
    ensures
        dialogue::succeeds(
            |log: Seq<Reply>|
                command::git_status_run(
                    workflow::first_push(commit, session::branch_of(session_name)),
                    log,
                ).and_then(|_done: (), log: Seq<Reply>| Run::Done(commit, log)),
            d,
            commit,
        ),
{
    dialogue::lemma_words();
    dialogue::lemma_replies();
    dialogue::lemma_made(
        |log: Seq<Reply>|
            command::git_status_run(
                workflow::first_push(commit, session::branch_of(session_name)),
                log,
            ).and_then(|_done: (), log: Seq<Reply>| Run::Done(commit, log)),
        d,
    );
}

#[verifier::spinoff_prover]
proof fn lemma_ensured(
    d: Seq<Turn>,
    session_name: Seq<char>,
    found: Option<Seq<char>>,
    commit: Seq<char>,
)
    requires
        match found {
            Some(own) => d.len() == 0 && own == commit,
            None => d.len() == 10 && starting::is_first_commit(d.take(9), session_name, commit)
                && dialogue::ran(
                d[9],
                dialogue::git(
                    seq![
                        "push"@,
                        "jist"@,
                        commit + ":refs/heads/"@ + ("jist-"@ + session::escaped(session_name)),
                    ],
                ),
            ),
        },
    ensures
        dialogue::succeeds(
            |log: Seq<Reply>| workflow::ensure_session_run(session_name, found, log),
            d,
            commit,
        ),
{
    let whole = |log: Seq<Reply>| workflow::ensure_session_run(session_name, found, log);
    match found {
        Some(own) => {
            dialogue::lemma_replies();
            dialogue::lemma_made(whole, d);
        },
        None => {
            lemma_created(d.take(9), session_name, commit);
            assert(d.skip(9)[0] == d[9]);
            lemma_first_push(d.skip(9), session_name, commit);
            dialogue::lemma_join(
                whole,
                |log: Seq<Reply>| workflow::create_jist_meta_commit_run(session_name, log),
                |commit: Seq<char>, log: Seq<Reply>|
                    command::git_status_run(
                        workflow::first_push(commit, session::branch_of(session_name)),
                        log,
                    ).and_then(|_done: (), log: Seq<Reply>| Run::Done(commit, log)),
                d,
                9,
                commit,
                commit,
            );
        },
    }
}

#[verifier::spinoff_prover]
proof fn lemma_start_found(
    d: Seq<Turn>,
    session_name: Seq<char>,
    found: Option<Seq<char>>,
    commit: Seq<char>,
    n: int,
)
    requires
        0 <= n <= d.len(),
        dialogue::succeeds(
            |log: Seq<Reply>| workflow::ensure_session_run(session_name, found, log),
            d.take(n),
            commit,
        ),
        starting::is_checkout(d.skip(n), "jist-"@ + session::escaped(session_name)),
    ensures
        dialogue::succeeds(
            |log: Seq<Reply>| workflow::start_found_run(session_name, found, log),
            d,
            commit,
        ),
{
    let branch = session::branch_of(session_name);
    lemma_checkout(d.skip(n), branch);
    let next = |commit: Seq<char>, log: Seq<Reply>|
        workflow::checkout_jist_branch_run(branch, log).and_then(
            |_done: (), log: Seq<Reply>| Run::Done(commit, log),
        );
    success::lemma_then_done(
        |log: Seq<Reply>| next(commit, log),
        |log: Seq<Reply>| workflow::checkout_jist_branch_run(branch, log),
        |_done: (), log: Seq<Reply>| Run::Done(commit, log),
        d.skip(n),
        (),
        commit,
    );
    dialogue::lemma_join(
        |log: Seq<Reply>| workflow::start_found_run(session_name, found, log),
        |log: Seq<Reply>| workflow::ensure_session_run(session_name, found, log),
        next,
        d,
        n,
        commit,
        commit,
    );
}

#[verifier::spinoff_prover]
proof fn lemma_start_prepared(
    d: Seq<Turn>,
    session_name: Seq<char>,
    found: Option<Seq<char>>,
    commit: Seq<char>,
)
    requires
        d.len() >= 2,
        dialogue::answered(d[0], dialogue::git_query(seq!["branch"@, "--show-current"@])),
        dialogue::output_of(d[0].reply).len() > 0,
        dialogue::succeeds(
            |log: Seq<Reply>|
                session::remote_branch_commit_run(session::branch_of(session_name), log),
            d.subrange(1, 2),
            found,
        ),
        dialogue::succeeds(
            |log: Seq<Reply>| workflow::start_found_run(session_name, found, log),
            d.skip(2),
            commit,
        ),
    ensures
        dialogue::succeeds(
            |log: Seq<Reply>| workflow::start_prepared_run(session_name, log),
            d,
            commit,
        ),
{
    let tail = d.skip(1);
    assert(tail.take(1) =~= d.subrange(1, 2));
    assert(tail.skip(1) =~= d.skip(2));
    dialogue::lemma_join(
        |log: Seq<Reply>| workflow::start_on_branch_run(session_name, log),
        |log: Seq<Reply>|
            session::remote_branch_commit_run(session::branch_of(session_name), log),
        |found: Option<Seq<char>>, log: Seq<Reply>|
            workflow::start_found_run(session_name, found, log),
        tail,
        1,
        found,
        commit,
    );
    assert(d.take(1)[0] == d[0]);
    success::lemma_current_branch(d.take(1));
    let branch = dialogue::output_of(d[0].reply);
    let next = |branch: Seq<char>, log: Seq<Reply>|
        if branch.len() == 0 {
            Run::Failed("Cannot initialize JIST from a detached HEAD."@, log)
        } else {
            workflow::start_on_branch_run(session_name, log)
        };
    dialogue::lemma_same(
        |log: Seq<Reply>| workflow::start_on_branch_run(session_name, log),
        |log: Seq<Reply>| next(branch, log),
        tail,
        commit,
    );
    dialogue::lemma_join(
        |log: Seq<Reply>| workflow::start_prepared_run(session_name, log),
        |log: Seq<Reply>| session::current_branch_run(log),
        next,
        d,
        1,
        branch,
        commit,
    );
}

/// The start of a session is owed where the private repository is there or can be created, a
/// branch is checked out, the session is there or can be created, and the commands succeed.
#[verifier::spinoff_prover]
pub proof fn law_start_is_owed(
    d: Seq<Turn>,
    session_name: Seq<char>,
    commit: Seq<char>,
    k: int,
)
    requires
        starting::is_start(d, session_name, commit, k),
    ensures
        dialogue::succeeds(
            |log: Seq<Reply>| workflow::start_jist_session_run(session_name, log),
            d,
            commit,
        ),
{
    let branch = session::branch_of(session_name);
    let tail = d.skip(k);
    let end = tail.skip(2);
    let listed = dialogue::output_of(d[k + 1].reply);
    let found = if listed.len() == 0 {
        None
    } else {
        Some(commit)
    };
    let n = if listed.len() == 0 {
        10int
    } else {
        0int
    };
    assert(tail.subrange(1, 2)[0] == d[k + 1]);
    lemma_lookup(tail.subrange(1, 2), branch, found);
    if listed.len() == 0 {
        assert(end.take(10).take(9) =~= d.subrange(k + 2, k + 11));
        assert(end.take(10)[9] == d[k + 11]);
        assert(end.skip(10) =~= d.skip(k + 12));
    } else {
        assert(end.skip(0) =~= d.skip(k + 2));
    }
    lemma_ensured(end.take(n), session_name, found, commit);
    lemma_start_found(end, session_name, found, commit, n);
    assert(tail[0] == d[k]);
    lemma_start_prepared(tail, session_name, found, commit);
    lemma_prepared(d.take(k));
    dialogue::lemma_join(
        |log: Seq<Reply>| workflow::start_jist_session_run(session_name, log),
        |log: Seq<Reply>| workflow::prepare_remote_run(log),
        |_done: (), log: Seq<Reply>| workflow::start_prepared_run(session_name, log),
        d,
        k,
        (),
        commit,
    );
}

#[verifier::spinoff_prover]
proof fn lemma_base(d: Seq<Turn>, listed: SessionInfoView, based: SessionInfoView)
    requires
        d.len() == 1,
        starting::is_based(d[0], listed, based),
    ensures
        dialogue::succeeds(
            |log: Seq<Reply>| session::base_commit_run(session::branch_of(listed.name), log),
            d,
            based.base_commit,
        ),
        based == (SessionInfoView { base_commit: based.base_commit, ..listed }),
{
    transcripts::lemma_remote_ref(session::branch_of(listed.name));
    starting::lemma_base_ref(session::escaped(listed.name));
    dialogue::lemma_words();
    dialogue::lemma_replies();
    dialogue::lemma_made(
        |log: Seq<Reply>| session::base_commit_run(session::branch_of(listed.name), log),
        d,
    );
}

#[verifier::spinoff_prover]
proof fn lemma_bases(
    found: Seq<SessionInfoView>,
    rest: Seq<SessionInfoView>,
    d: Seq<Turn>,
    based: Seq<SessionInfoView>,
)
    requires
        d.len() == rest.len(),
        based.len() == rest.len(),
        forall|i: int|
            0 <= i < rest.len() ==> starting::is_based(d[i], rest[i], #[trigger] based[i]),
    ensures
        dialogue::succeeds(
            |log: Seq<Reply>| session::with_base_commits_run(found, rest, log),
            d,
            found + based,
        ),
    decreases rest.len(),
{
    let whole = |log: Seq<Reply>| session::with_base_commits_run(found, rest, log);
    if rest.len() == 0 {
        assert(found + based =~= found);
        dialogue::lemma_replies();
        dialogue::lemma_made(whole, d);
    } else {
        assert(d.take(1)[0] == d[0]);
        assert(starting::is_based(d[0], rest[0], based[0]));
        lemma_base(d.take(1), rest[0], based[0]);
        let tail = d.skip(1);
        let later = based.skip(1);
        assert forall|i: int| 0 <= i < rest.skip(1).len() implies starting::is_based(
            tail[i],
            rest.skip(1)[i],
            #[trigger] later[i],
        ) by {
            assert(starting::is_based(d[i + 1], rest[i + 1], based[i + 1]));
        }
        lemma_bases(found.push(based[0]), rest.skip(1), tail, later);
        assert(found.push(based[0]) + later =~= found + based);
        let next = |base_commit: Seq<char>, log: Seq<Reply>|
            session::with_base_commits_run(
                found.push(SessionInfoView { base_commit, ..rest[0] }),
                rest.skip(1),
                log,
            );
        dialogue::lemma_same(
            |log: Seq<Reply>|
                session::with_base_commits_run(found.push(based[0]), rest.skip(1), log),
            |log: Seq<Reply>| next(based[0].base_commit, log),
            tail,
            found + based,
        );
        dialogue::lemma_join(
            whole,
            |log: Seq<Reply>|
                session::base_commit_run(session::branch_of(rest[0].name), log),
            next,
            d,
            1,
            based[0].base_commit,
            found + based,
        );
    }
}

#[verifier::spinoff_prover]
proof fn lemma_refs(d: Seq<Turn>)
    requires
        d.len() == 2,
        starting::is_fetch_of_all(d[0]),
        dialogue::answered(
            d[1],
            dialogue::git_query(
                seq![
                    "for-each-ref"@,
                    "--sort=-committerdate"@,
                    "--format=%(refname:short)%09%(committerdate:unix)%09%(objectname)"@,
                    "refs/remotes/jist/jist-*"@,
                ],
            ),
        ),
    ensures
        dialogue::succeeds(
            |log: Seq<Reply>| session::fetch_and_list_run(log),
            d,
            dialogue::output_of(d[1].reply),
        ),
{
    starting::lemma_all_spec();
    dialogue::lemma_words();
    dialogue::lemma_replies();
    dialogue::lemma_made(|log: Seq<Reply>| session::fetch_and_list_run(log), d);
}

/// The list of the sessions is owed where the remote can be reached and the commands succeed.
#[verifier::spinoff_prover]
pub proof fn law_listing_is_owed(d: Seq<Turn>, sessions: Seq<SessionInfoView>)
    requires
        starting::is_listing(d, sessions),
    ensures
        dialogue::succeeds(|log: Seq<Reply>| session::list_sessions_run(log), d, sessions),
{
    reveal(starting::is_listing);
    let k = d.len() - sessions.len() - 2;
    let refs = dialogue::output_of(d[k + 1].reply);
    let listed = session::sessions_in(refs);
    let tail = d.skip(k);
    let end = tail.skip(2);
    assert(tail.take(2)[0] == d[k] && tail.take(2)[1] == d[k + 1]);
    lemma_refs(tail.take(2));
    assert forall|i: int| 0 <= i < listed.len() implies starting::is_based(
        end[i],
        listed[i],
        #[trigger] sessions[i],
    ) by {
        assert(end[i] == d[k + 2 + i]);
    }
    lemma_bases(Seq::empty(), listed, end, sessions);
    assert(Seq::<SessionInfoView>::empty() + sessions =~= sessions);
    dialogue::lemma_join(
        |log: Seq<Reply>| session::listed_sessions_run(log),
        |log: Seq<Reply>| session::fetch_and_list_run(log),
        |refs: Seq<char>, log: Seq<Reply>|
            session::with_base_commits_run(Seq::empty(), session::sessions_in(refs), log),
        tail,
        2,
        refs,
        sessions,
    );
    lemma_opened(d.take(k));
    dialogue::lemma_join(
        |log: Seq<Reply>| session::list_sessions_run(log),
        |log: Seq<Reply>| repository::open_remote_run(log),
        |_done: (), log: Seq<Reply>| session::listed_sessions_run(log),
        d,
        k,
        (),
        sessions,
    );
}

#[verifier::spinoff_prover]
pub(crate) proof fn lemma_checked_out(
    d: Seq<Turn>,
    sessions: Seq<SessionInfoView>,
    name: Option<Seq<char>>,
)
    requires
        watching::is_checked_out(d, sessions, name),
    ensures
        dialogue::succeeds(
            |log: Seq<Reply>| session::checked_out_among_run(sessions, log),
            d,
            name,
        ),
{
    reveal(watching::is_checked_out);
    let head = dialogue::output_of(d[0].reply);
    let branch = dialogue::output_of(d[1].reply);
    watching::lemma_first_at(sessions, head);
    watching::lemma_branch_name(branch);
    if let Some(found) = session::session_at(sessions, head) {
        let i = choose|i: int|
            #[trigger] watching::is_first_at(sessions, head, i) && sessions[i] == found;
        let j = choose|j: int|
            #[trigger] watching::is_first_at(sessions, head, j) && name == Some(
                sessions[j].name,
            );
        assert(watching::is_first_at(sessions, head, i));
        assert(watching::is_first_at(sessions, head, j));
        assert(i == j);
    } else {
        if let (Some(a), Some(b)) = (name, session::session_of_branch(branch)) {
            let n = "jist-"@.len() as int;
            assert(branch.skip(n) =~= a);
            assert(branch.skip(n) =~= b);
        }
    }
    dialogue::lemma_words();
    dialogue::lemma_replies();
    dialogue::lemma_made(|log: Seq<Reply>| session::checked_out_among_run(sessions, log), d);
}

#[verifier::spinoff_prover]
proof fn lemma_session_found(d: Seq<Turn>, session_name: Option<Seq<char>>, b: Beginning)
    requires
        d.len() == b.found,
        match session_name {
            Some(name) => name == b.name && starting::is_start(d, name, b.commit, b.prepared),
            None => 0 <= b.listed <= b.found && starting::is_listing(
                d.take(b.listed),
                b.sessions,
            ) && watching::is_checked_out(d.skip(b.listed), b.sessions, Some(b.name)),
        },
    ensures
        dialogue::succeeds(
            |log: Seq<Reply>| work::session_to_work_on_run(session_name, log),
            d,
            b.name,
        ),
{
    let whole = |log: Seq<Reply>| work::session_to_work_on_run(session_name, log);
    match session_name {
        Some(name) => {
            law_start_is_owed(d, name, b.commit, b.prepared);
            success::lemma_then_done(
                whole,
                |log: Seq<Reply>| workflow::start_jist_session_run(name, log),
                |commit: Seq<char>, log: Seq<Reply>| Run::Done(name, log),
                d,
                b.commit,
                name,
            );
        },
        None => {
            law_listing_is_owed(d.take(b.listed), b.sessions);
            lemma_checked_out(d.skip(b.listed), b.sessions, Some(b.name));
            let current = |log: Seq<Reply>| session::current_session_name_run(log);
            dialogue::lemma_join(
                current,
                |log: Seq<Reply>| session::list_sessions_run(log),
                |sessions: Seq<SessionInfoView>, log: Seq<Reply>|
                    session::checked_out_among_run(sessions, log),
                d,
                b.listed,
                b.sessions,
                Some(b.name),
            );
            success::lemma_then_done(
                whole,
                current,
                |name: Option<Seq<char>>, log: Seq<Reply>|
                    match name {
                        Some(name) => Run::Done(name, log),
                        None => Run::Failed(
                            "Check out a JIST session or pass a session name before running `jist work`."@,
                            log,
                        ),
                    },
                d,
                Some(b.name),
                b.name,
            );
        },
    }
}

#[verifier::spinoff_prover]
proof fn lemma_claimed(d: Seq<Turn>, b: Beginning)
    requires
        d.len() >= 3,
        transcripts::is_synchronized(d.take(3), "jist-"@ + session::escaped(b.name)),
        transcripts::is_claim(d.skip(3), b.claimed, b.entered, b.written, b.id),
    ensures
        dialogue::succeeds(
            |log: Seq<Reply>| work::claim_to_work_run(b.name, log),
            d,
            WorkStageView::Looping(LoopStageView::Starting),
        ),
{
    let branch = session::branch_of(b.name);
    let stage = WorkStageView::Looping(LoopStageView::Starting);
    let last = |claimed: Seq<char>, log: Seq<Reply>|
        Run::Done(WorkStageView::Looping(LoopStageView::Starting), log);
    let next = |_done: (), log: Seq<Reply>| workflow::claim_session_run(log).and_then(last);
    success::lemma_synchronized(d.take(3), branch);
    success::law_claim_is_owed(d.skip(3), b.claimed, b.entered, b.written, b.id);
    success::lemma_then_done(
        |log: Seq<Reply>| next((), log),
        |log: Seq<Reply>| workflow::claim_session_run(log),
        last,
        d.skip(3),
        b.claimed,
        stage,
    );
    dialogue::lemma_join(
        |log: Seq<Reply>| work::claim_to_work_run(b.name, log),
        |log: Seq<Reply>| sync::ensure_fully_synchronized_run(branch, log),
        next,
        d,
        3,
        (),
        stage,
    );
}

#[verifier::spinoff_prover]
proof fn lemma_work_joined(
    session_name: Option<Seq<char>>,
    d: Seq<Turn>,
    found: int,
    name: Seq<char>,
)
    requires
        0 <= found <= d.len(),
        dialogue::succeeds(
            |log: Seq<Reply>| work::session_to_work_on_run(session_name, log),
            d.take(found),
            name,
        ),
        dialogue::succeeds(
            |log: Seq<Reply>| work::claim_to_work_run(name, log),
            d.skip(found),
            WorkStageView::Looping(LoopStageView::Starting),
        ),
    ensures
        dialogue::succeeds(
            |log: Seq<Reply>|
                work::work_session_run(session_name, WorkStageView::Starting, log),
            d,
            WorkStageView::Looping(LoopStageView::Starting),
        ),
{
    dialogue::lemma_join(
        |log: Seq<Reply>| work::work_session_run(session_name, WorkStageView::Starting, log),
        |log: Seq<Reply>| work::session_to_work_on_run(session_name, log),
        |name: Seq<char>, log: Seq<Reply>| work::claim_to_work_run(name, log),
        d,
        found,
        name,
        WorkStageView::Looping(LoopStageView::Starting),
    );
}

/// The watch is owed where the session can be started, or is checked out, no file differs
/// from its remote branch, and it can be claimed.
#[verifier::spinoff_prover]
pub proof fn law_work_is_owed(session_name: Option<Seq<char>>, d: Seq<Turn>, b: Beginning)
    requires
        watching::is_beginning(session_name, d, b),
    ensures
        dialogue::succeeds(
            |log: Seq<Reply>|
                work::work_session_run(session_name, WorkStageView::Starting, log),
            d,
            WorkStageView::Looping(LoopStageView::Starting),
        ),
{
    let front = d.take(b.found);
    let tail = d.skip(b.found);
    if session_name is None {
        assert(front.take(b.listed) =~= d.take(b.listed));
        assert(front.skip(b.listed) =~= d.subrange(b.listed, b.found));
    }
    lemma_session_found(front, session_name, b);
    assert(tail.take(3) =~= d.subrange(b.found, b.found + 3));
    assert(tail.skip(3) =~= d.skip(b.found + 3));
    lemma_claimed(tail, b);
    lemma_work_joined(session_name, d, b.found, b.name);
}

} // verus!
