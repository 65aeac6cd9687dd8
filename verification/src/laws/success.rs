//! When success is owed: a workflow whose requests get the answers it needs comes to its
//! result.

use crate::claim;
use crate::claim::ClaimeeIdView;
use crate::command;
use crate::exchange::{Reply, Run};
use crate::laws::dialogue;
use crate::laws::dialogue::Turn;
use crate::laws::lists;
use crate::laws::transcripts;
use crate::repository;
use crate::session;
use crate::sync;
use crate::sync::SyncStatusView;
use crate::workflow;
use vstd::prelude::*;

verus! {

#[verifier::spinoff_prover]
pub(crate) proof fn lemma_naming(d: Seq<Turn>)
    requires
        transcripts::is_naming(d),
    ensures
        dialogue::succeeds(
            |log: Seq<Reply>| repository::private_name_run(log),
            d,
            dialogue::output_of(d[1].reply) + "/jist-"@ + dialogue::output_of(d[0].reply),
        ),
{
    dialogue::lemma_words();
    dialogue::lemma_replies();
    dialogue::lemma_made(|log: Seq<Reply>| repository::private_name_run(log), d);
}

#[verifier::spinoff_prover]
pub(crate) proof fn lemma_pointing(d: Seq<Turn>, repository: Seq<char>)
    requires
        transcripts::is_pointing(d, repository),
    ensures
        dialogue::succeeds(
            |log: Seq<Reply>| repository::ensure_jist_remote_run(repository, log),
            d,
            (),
        ),
{
    dialogue::lemma_words();
    dialogue::lemma_replies();
    dialogue::lemma_made(
        |log: Seq<Reply>| repository::ensure_jist_remote_run(repository, log),
        d,
    );
}

#[verifier::spinoff_prover]
pub(crate) proof fn lemma_remote_setup(d: Seq<Turn>)
    requires
        transcripts::is_remote_setup(d),
    ensures
        dialogue::succeeds(|log: Seq<Reply>| repository::reach_remote_run(log), d, ()),
{
    let name = dialogue::output_of(d[1].reply) + "/jist-"@ + dialogue::output_of(d[0].reply);
    lemma_naming(d.take(2));
    lemma_pointing(d.skip(2), name);
    assert(d.take(2)[0] == d[0] && d.take(2)[1] == d[1]);
    dialogue::lemma_join(
        |log: Seq<Reply>| repository::reach_remote_run(log),
        |log: Seq<Reply>| repository::private_name_run(log),
        |repository: Seq<char>, log: Seq<Reply>|
            repository::ensure_jist_remote_run(repository, log),
        d,
        2,
        name,
        (),
    );
}

#[verifier::spinoff_prover]
pub(crate) proof fn lemma_gh_check(d: Seq<Turn>)
    requires
        d.len() == 1,
        transcripts::is_gh_check(d[0]),
    ensures
        dialogue::succeeds(|log: Seq<Reply>| command::ensure_gh_installed_run(log), d, ()),
{
    dialogue::lemma_words();
    dialogue::lemma_replies();
    dialogue::lemma_made(|log: Seq<Reply>| command::ensure_gh_installed_run(log), d);
}

#[verifier::spinoff_prover]
pub(crate) proof fn lemma_current_branch(d: Seq<Turn>)
    requires
        d.len() == 1,
        dialogue::answered(d[0], dialogue::git_query(seq!["branch"@, "--show-current"@])),
    ensures
        dialogue::succeeds(
            |log: Seq<Reply>| session::current_branch_run(log),
            d,
            dialogue::output_of(d[0].reply),
        ),
{
    dialogue::lemma_words();
    dialogue::lemma_replies();
    dialogue::lemma_made(|log: Seq<Reply>| session::current_branch_run(log), d);
}

#[verifier::spinoff_prover]
pub(crate) proof fn lemma_fetch(d: Seq<Turn>, branch: Seq<char>)
    requires
        d.len() == 1,
        transcripts::is_fetch(d[0], branch),
    ensures
        dialogue::succeeds(
            |log: Seq<Reply>| session::fetch_jist_branch_run(branch, log),
            d,
            (),
        ),
{
    transcripts::lemma_fetch_spec(branch);
    dialogue::lemma_words();
    dialogue::lemma_replies();
    dialogue::lemma_made(|log: Seq<Reply>| session::fetch_jist_branch_run(branch, log), d);
}

#[verifier::spinoff_prover]
proof fn lemma_update(d: Seq<Turn>, branch: Seq<char>)
    requires
        d.len() >= 1,
        transcripts::is_remote_setup(d.drop_last()),
        transcripts::is_fetch(d.last(), branch),
    ensures
        dialogue::succeeds(|log: Seq<Reply>| workflow::update_run(branch, log), d, ()),
{
    let k = d.len() - 1;
    assert(d.take(k) =~= d.drop_last());
    lemma_remote_setup(d.take(k));
    assert(d.skip(k)[0] == d.last());
    lemma_fetch(d.skip(k), branch);
    dialogue::lemma_join(
        |log: Seq<Reply>| workflow::update_run(branch, log),
        |log: Seq<Reply>| repository::reach_remote_run(log),
        |_done: (), log: Seq<Reply>| session::fetch_jist_branch_run(branch, log),
        d,
        k,
        (),
        (),
    );
}

proof fn lemma_session_of(branch: Seq<char>, name: Seq<char>)
    requires
        branch == "jist-"@ + name,
        name.len() > 0,
    ensures
        session::session_of_branch(branch) == Some(name),
{
    let n = "jist-"@.len() as int;
    assert(branch.take(n) =~= "jist-"@);
    assert(branch.skip(n) =~= name);
}

#[verifier::spinoff_prover]
proof fn lemma_enter_named(d: Seq<Turn>, refusal: Seq<char>, branch: Seq<char>, name: Seq<char>)
    requires
        d.len() >= 1,
        transcripts::is_remote_setup(d.drop_last()),
        transcripts::is_fetch(d.last(), branch),
        branch == "jist-"@ + name,
        name.len() > 0,
    ensures
        dialogue::succeeds(
            |log: Seq<Reply>|
                match session::session_of_branch(branch) {
                    Some(name) => workflow::update_run(branch, log).and_then(
                        |_done: (), log: Seq<Reply>| Run::Done((branch, name), log),
                    ),
                    None => Run::Failed(refusal, log),
                },
            d,
            (branch, name),
        ),
{
    lemma_session_of(branch, name);
    lemma_update(d, branch);
    let whole = |log: Seq<Reply>|
        match session::session_of_branch(branch) {
            Some(name) => workflow::update_run(branch, log).and_then(
                |_done: (), log: Seq<Reply>| Run::Done((branch, name), log),
            ),
            None => Run::Failed(refusal, log),
        };
    lemma_then_done(
        whole,
        |log: Seq<Reply>| workflow::update_run(branch, log),
        |_done: (), log: Seq<Reply>| Run::Done((branch, name), log),
        d,
        (),
        (branch, name),
    );
}

/// Where nothing is asked for after `first`, its dialogue is that of the whole.
pub(crate) proof fn lemma_then_done<A, B>(
    whole: spec_fn(Seq<Reply>) -> Run<B>,
    first: spec_fn(Seq<Reply>) -> Run<A>,
    next: spec_fn(A, Seq<Reply>) -> Run<B>,
    d: Seq<Turn>,
    middle: A,
    value: B,
)
    requires
        forall|log: Seq<Reply>| #[trigger] whole(log) == first(log).and_then(next),
        dialogue::succeeds(first, d, middle),
        forall|log: Seq<Reply>| #[trigger] next(middle, log) == Run::Done(value, log),
    ensures
        dialogue::succeeds(whole, d, value),
{
    let k = d.len() as int;
    assert(d.take(k) =~= d);
    let rest = d.skip(k);
    let then = |log: Seq<Reply>| next(middle, log);
    assert(dialogue::succeeds(then, rest, value)) by {
        dialogue::lemma_replies();
        assert forall|log: Seq<Reply>| then(#[trigger] (dialogue::replies(rest) + log))
            == Run::Done(value, log) by {
            assert(next(middle, dialogue::replies(rest) + log) == Run::Done(
                value,
                dialogue::replies(rest) + log,
            ));
        }
    }
    dialogue::lemma_join(whole, first, next, d, k, middle, value);
}

#[verifier::spinoff_prover]
proof fn lemma_enter_installed(d: Seq<Turn>, refusal: Seq<char>, branch: Seq<char>, name: Seq<char>)
    requires
        d.len() >= 2,
        dialogue::answered(d[0], dialogue::git_query(seq!["branch"@, "--show-current"@])),
        dialogue::output_of(d[0].reply) == branch,
        transcripts::is_remote_setup(d.subrange(1, d.len() - 1)),
        transcripts::is_fetch(d.last(), branch),
        branch == "jist-"@ + name,
        name.len() > 0,
    ensures
        dialogue::succeeds(
            |log: Seq<Reply>| workflow::enter_installed_run(refusal, log),
            d,
            (branch, name),
        ),
{
    let next = |branch: Seq<char>, log: Seq<Reply>|
        match session::session_of_branch(branch) {
            Some(name) => workflow::update_run(branch, log).and_then(
                |_done: (), log: Seq<Reply>| Run::Done((branch, name), log),
            ),
            None => Run::Failed(refusal, log),
        };
    assert(d.take(1)[0] == d[0]);
    lemma_current_branch(d.take(1));
    let tail = d.skip(1);
    assert(tail.drop_last() =~= d.subrange(1, d.len() - 1));
    assert(tail.last() == d.last());
    lemma_enter_named(tail, refusal, branch, name);
    let named = |log: Seq<Reply>|
        match session::session_of_branch(branch) {
            Some(name) => workflow::update_run(branch, log).and_then(
                |_done: (), log: Seq<Reply>| Run::Done((branch, name), log),
            ),
            None => Run::Failed(refusal, log),
        };
    let then = |log: Seq<Reply>| next(branch, log);
    dialogue::lemma_same(named, then, tail, (branch, name));
    dialogue::lemma_join(
        |log: Seq<Reply>| workflow::enter_installed_run(refusal, log),
        |log: Seq<Reply>| session::current_branch_run(log),
        next,
        d,
        1,
        branch,
        (branch, name),
    );
}

#[verifier::spinoff_prover]
pub(crate) proof fn lemma_entry(d: Seq<Turn>, refusal: Seq<char>, branch: Seq<char>, name: Seq<char>)
    requires
        transcripts::is_entry(d, branch),
        branch == "jist-"@ + name,
        name.len() > 0,
    ensures
        dialogue::succeeds(
            |log: Seq<Reply>| workflow::enter_session_run(refusal, log),
            d,
            (branch, name),
        ),
{
    let tail = d.skip(1);
    assert(d.take(1)[0] == d[0]);
    assert(tail[0] == d[1]);
    assert(tail.subrange(1, tail.len() - 1) =~= d.subrange(2, d.len() - 1));
    assert(tail.last() == d.last());
    lemma_gh_check(d.take(1));
    lemma_enter_installed(tail, refusal, branch, name);
    dialogue::lemma_join(
        |log: Seq<Reply>| workflow::enter_session_run(refusal, log),
        |log: Seq<Reply>| command::ensure_gh_installed_run(log),
        |_done: (), log: Seq<Reply>| workflow::enter_installed_run(refusal, log),
        d,
        1,
        (),
        (branch, name),
    );
}

#[verifier::spinoff_prover]
proof fn lemma_user(d: Seq<Turn>, user: Seq<char>)
    requires
        transcripts::is_user(d, user),
    ensures
        dialogue::succeeds(|log: Seq<Reply>| claim::local_machine_user_run(log), d, user),
{
    dialogue::lemma_replies();
    dialogue::lemma_made(|log: Seq<Reply>| claim::local_machine_user_run(log), d);
}

#[verifier::spinoff_prover]
proof fn lemma_machine(d: Seq<Turn>, machine: Seq<char>)
    requires
        transcripts::is_machine(d, machine),
    ensures
        dialogue::succeeds(|log: Seq<Reply>| claim::machine_id_run(log), d, machine),
{
    dialogue::lemma_replies();
    assert(Seq::<Seq<char>>::empty() =~= seq![]);
    dialogue::lemma_made(|log: Seq<Reply>| claim::machine_id_run(log), d);
}

#[verifier::spinoff_prover]
proof fn lemma_setup_at(d: Seq<Turn>, id: ClaimeeIdView, k: int)
    requires
        0 <= k <= d.len(),
        transcripts::is_user(d.take(k), id.user),
        transcripts::is_machine(d.skip(k), id.machine),
    ensures
        dialogue::succeeds(|log: Seq<Reply>| claim::current_run(log), d, id),
{
    lemma_user(d.take(k), id.user);
    let tail = d.skip(k);
    lemma_machine(tail, id.machine);
    let next = |user: Seq<char>, log: Seq<Reply>|
        claim::machine_id_run(log).and_then(
            |machine: Seq<char>, log: Seq<Reply>| Run::Done(ClaimeeIdView { user, machine }, log),
        );
    lemma_then_done(
        |log: Seq<Reply>| next(id.user, log),
        |log: Seq<Reply>| claim::machine_id_run(log),
        |machine: Seq<char>, log: Seq<Reply>|
            Run::Done(ClaimeeIdView { user: id.user, machine }, log),
        tail,
        id.machine,
        id,
    );
    dialogue::lemma_join(
        |log: Seq<Reply>| claim::current_run(log),
        |log: Seq<Reply>| claim::local_machine_user_run(log),
        next,
        d,
        k,
        id.user,
        id,
    );
}

#[verifier::spinoff_prover]
pub(crate) proof fn lemma_setup(d: Seq<Turn>, id: ClaimeeIdView)
    requires
        transcripts::is_setup(d, id),
        d.len() >= 2,
    ensures
        dialogue::succeeds(|log: Seq<Reply>| claim::current_run(log), d, id),
{
    if transcripts::is_user(d.take(1), id.user) && transcripts::is_machine(
        d.skip(1),
        id.machine,
    ) {
        lemma_setup_at(d, id, 1);
    } else {
        lemma_setup_at(d, id, 2);
    }
}

#[verifier::spinoff_prover]
pub(crate) proof fn lemma_owner(d: Seq<Turn>, branch: Seq<char>, owner: Option<ClaimeeIdView>)
    requires
        d.len() == 1,
        transcripts::is_metadata(d[0], branch),
        claim::claim_in(dialogue::output_of(d[0].reply)) matches Ok(found) && owner
            == match found {
            Some(claim) => Some(claim.claimee_id),
            None => None,
        },
    ensures
        dialogue::succeeds(
            |log: Seq<Reply>| claim::remote_claim_owner_run(branch, log),
            d,
            owner,
        ),
{
    transcripts::lemma_remote_ref(branch);
    dialogue::lemma_words();
    dialogue::lemma_replies();
    dialogue::lemma_made(|log: Seq<Reply>| claim::remote_claim_owner_run(branch, log), d);
}

#[verifier::spinoff_prover]
proof fn lemma_allowed(d: Seq<Turn>, id: ClaimeeIdView)
    requires
        transcripts::is_setup(d, id),
        d.len() >= 2,
    ensures
        dialogue::succeeds(|log: Seq<Reply>| claim::allowed_run(id, log), d, ()),
{
    lemma_setup(d, id);
    let compared = |log: Seq<Reply>| claim::is_current_setup_run(id, log);
    lemma_then_done(
        compared,
        |log: Seq<Reply>| claim::current_run(log),
        |current: ClaimeeIdView, log: Seq<Reply>| Run::Done(id == current, log),
        d,
        id,
        true,
    );
    lemma_then_done(
        |log: Seq<Reply>| claim::allowed_run(id, log),
        compared,
        |mine: bool, log: Seq<Reply>|
            if mine {
                Run::Done((), log)
            } else {
                claim::refused_run(id, log)
            },
        d,
        true,
        (),
    );
}

#[verifier::spinoff_prover]
pub(crate) proof fn lemma_own_claim(d: Seq<Turn>, branch: Seq<char>)
    requires
        transcripts::is_own_claim(d, branch),
    ensures
        dialogue::succeeds(
            |log: Seq<Reply>| claim::ensure_claimed_by_this_machine_run(branch, log),
            d,
            (),
        ),
{
    let id = claim::claim_in(dialogue::output_of(d[0].reply))->Ok_0->Some_0.claimee_id;
    assert(d.take(1)[0] == d[0]);
    lemma_owner(d.take(1), branch, Some(id));
    lemma_allowed(d.skip(1), id);
    let next = |owner: Option<ClaimeeIdView>, log: Seq<Reply>|
        match owner {
            Some(id) => claim::allowed_run(id, log),
            None => Run::Failed("This JIST session has not been claimed yet."@, log),
        };
    dialogue::lemma_same(
        |log: Seq<Reply>| claim::allowed_run(id, log),
        |log: Seq<Reply>| next(Some(id), log),
        d.skip(1),
        (),
    );
    dialogue::lemma_join(
        |log: Seq<Reply>| claim::ensure_claimed_by_this_machine_run(branch, log),
        |log: Seq<Reply>| claim::remote_claim_owner_run(branch, log),
        next,
        d,
        1,
        Some(id),
        (),
    );
}

#[verifier::spinoff_prover]
proof fn lemma_push_changes(d: Seq<Turn>, branch: Seq<char>)
    requires
        d.len() == if dialogue::is_success(d[1].reply) {
            3int
        } else {
            4int
        },
        dialogue::ran(d[0], dialogue::git(seq!["add"@, "-A"@])),
        d[1].request == dialogue::git(seq!["diff"@, "--cached"@, "--quiet"@]),
        dialogue::is_ended(d[1].reply),
        !dialogue::is_success(d[1].reply) ==> dialogue::ran(
            d[2],
            dialogue::git(seq!["commit"@, "--amend"@, "--no-edit"@]),
        ),
        dialogue::ran(
            d.last(),
            dialogue::git(seq!["push"@, "--force"@, "jist"@, "HEAD:refs/heads/"@ + branch]),
        ),
    ensures
        dialogue::succeeds(|log: Seq<Reply>| workflow::push_changes_run(branch, log), d, ()),
{
    dialogue::lemma_words();
    dialogue::lemma_replies();
    dialogue::lemma_made(|log: Seq<Reply>| workflow::push_changes_run(branch, log), d);
}

#[verifier::spinoff_prover]
proof fn lemma_push_entered(d: Seq<Turn>, branch: Seq<char>, name: Seq<char>, e: int)
    requires
        0 <= e,
        d.len() == e + if dialogue::is_success(d[e + 1].reply) {
            3int
        } else {
            4int
        },
        transcripts::is_own_claim(d.take(e), branch),
        dialogue::ran(d[e], dialogue::git(seq!["add"@, "-A"@])),
        d[e + 1].request == dialogue::git(seq!["diff"@, "--cached"@, "--quiet"@]),
        dialogue::is_ended(d[e + 1].reply),
        !dialogue::is_success(d[e + 1].reply) ==> dialogue::ran(
            d[e + 2],
            dialogue::git(seq!["commit"@, "--amend"@, "--no-edit"@]),
        ),
        dialogue::ran(
            d.last(),
            dialogue::git(seq!["push"@, "--force"@, "jist"@, "HEAD:refs/heads/"@ + branch]),
        ),
    ensures
        dialogue::succeeds(
            |log: Seq<Reply>| workflow::push_entered_run(branch, name, log),
            d,
            name,
        ),
{
    let tail = d.skip(e);
    assert(tail[0] == d[e] && tail[1] == d[e + 1] && tail.last() == d.last());
    assert(tail.len() == 4 ==> tail[2] == d[e + 2]);
    lemma_own_claim(d.take(e), branch);
    lemma_push_changes(tail, branch);
    let next = |_done: (), log: Seq<Reply>|
        workflow::push_changes_run(branch, log).and_then(
            |_done: (), log: Seq<Reply>| Run::Done(name, log),
        );
    lemma_then_done(
        |log: Seq<Reply>| next((), log),
        |log: Seq<Reply>| workflow::push_changes_run(branch, log),
        |_done: (), log: Seq<Reply>| Run::Done(name, log),
        tail,
        (),
        name,
    );
    dialogue::lemma_join(
        |log: Seq<Reply>| workflow::push_entered_run(branch, name, log),
        |log: Seq<Reply>| claim::ensure_claimed_by_this_machine_run(branch, log),
        next,
        d,
        e,
        (),
        name,
    );
}

/// A push is owed where the branch of a session is checked out, the claim on it is that of
/// the user of this machine, and the commands succeed.
#[verifier::spinoff_prover]
pub proof fn law_push_is_owed(d: Seq<Turn>, name: Seq<char>, k: int, e: int)
    requires
        transcripts::is_push(d, name, k, e),
    ensures
        dialogue::succeeds(|log: Seq<Reply>| workflow::push_session_run(log), d, name),
{
    let refusal = "Check out a JIST session branch before running `jist push`."@;
    let branch = "jist-"@ + name;
    let tail = d.skip(k);
    let n = e - k;
    lemma_entry(d.take(k), refusal, branch, name);
    assert(tail.take(n) =~= d.subrange(k, e));
    assert(tail[n] == d[e] && tail[n + 1] == d[e + 1] && tail.last() == d.last());
    assert(tail.len() == n + 4 ==> tail[n + 2] == d[e + 2]);
    lemma_push_entered(tail, branch, name, n);
    dialogue::lemma_join(
        |log: Seq<Reply>| workflow::push_session_run(log),
        |log: Seq<Reply>| workflow::enter_session_run(refusal, log),
        |entered: (Seq<char>, Seq<char>), log: Seq<Reply>|
            workflow::push_entered_run(entered.0, entered.1, log),
        d,
        k,
        (branch, name),
        name,
    );
}

#[verifier::spinoff_prover]
proof fn lemma_record(d: Seq<Turn>, branch: Seq<char>, metadata: Seq<char>)
    requires
        transcripts::is_record(d, branch, metadata),
    ensures
        dialogue::succeeds(
            |log: Seq<Reply>| workflow::record_metadata_run(branch, metadata, log),
            d,
            (),
        ),
{
    dialogue::lemma_words();
    dialogue::lemma_replies();
    dialogue::lemma_made(
        |log: Seq<Reply>| workflow::record_metadata_run(branch, metadata, log),
        d,
    );
}

#[verifier::spinoff_prover]
proof fn lemma_unclaim_entered(d: Seq<Turn>, branch: Seq<char>, name: Seq<char>, e: int)
    requires
        0 <= e <= d.len(),
        transcripts::is_own_claim(d.take(e), branch),
        transcripts::is_record(d.skip(e), branch, "initialized=true\n"@),
    ensures
        dialogue::succeeds(
            |log: Seq<Reply>| workflow::unclaim_entered_run(branch, name, log),
            d,
            name,
        ),
{
    let tail = d.skip(e);
    lemma_own_claim(d.take(e), branch);
    lemma_record(tail, branch, "initialized=true\n"@);
    let next = |_done: (), log: Seq<Reply>|
        workflow::record_metadata_run(branch, "initialized=true\n"@, log).and_then(
            |_done: (), log: Seq<Reply>| Run::Done(name, log),
        );
    lemma_then_done(
        |log: Seq<Reply>| next((), log),
        |log: Seq<Reply>| workflow::record_metadata_run(branch, "initialized=true\n"@, log),
        |_done: (), log: Seq<Reply>| Run::Done(name, log),
        tail,
        (),
        name,
    );
    dialogue::lemma_join(
        |log: Seq<Reply>| workflow::unclaim_entered_run(branch, name, log),
        |log: Seq<Reply>| claim::ensure_claimed_by_this_machine_run(branch, log),
        next,
        d,
        e,
        (),
        name,
    );
}

/// That the claim is given back is owed where the branch of a session is checked out, the
/// claim on it is that of the user of this machine, and the record succeeds.
#[verifier::spinoff_prover]
pub proof fn law_unclaim_is_owed(d: Seq<Turn>, name: Seq<char>, k: int, e: int)
    requires
        transcripts::is_unclaim(d, name, k, e),
    ensures
        dialogue::succeeds(|log: Seq<Reply>| workflow::unclaim_session_run(log), d, name),
{
    let refusal = "Check out a JIST session branch before running `jist unclaim`."@;
    let branch = "jist-"@ + name;
    let tail = d.skip(k);
    lemma_entry(d.take(k), refusal, branch, name);
    assert(tail.take(e - k) =~= d.subrange(k, e));
    assert(tail.skip(e - k) =~= d.skip(e));
    lemma_unclaim_entered(tail, branch, name, e - k);
    dialogue::lemma_join(
        |log: Seq<Reply>| workflow::unclaim_session_run(log),
        |log: Seq<Reply>| workflow::enter_session_run(refusal, log),
        |entered: (Seq<char>, Seq<char>), log: Seq<Reply>|
            workflow::unclaim_entered_run(entered.0, entered.1, log),
        d,
        k,
        (branch, name),
        name,
    );
}

#[verifier::spinoff_prover]
proof fn lemma_counted(d: Seq<Turn>, branch: Seq<char>)
    requires
        transcripts::is_synchronized(d, branch),
    ensures
        dialogue::succeeds(
            |log: Seq<Reply>| sync::sync_status_for_branch_run(branch, log),
            d,
            sync::sync_status_of(
                dialogue::output_of(d[0].reply),
                dialogue::output_of(d[1].reply),
                dialogue::output_of(d[2].reply),
            ),
        ),
{
    transcripts::lemma_remote_ref(branch);
    dialogue::lemma_words();
    dialogue::lemma_replies();
    dialogue::lemma_made(|log: Seq<Reply>| sync::sync_status_for_branch_run(branch, log), d);
}

#[verifier::spinoff_prover]
pub(crate) proof fn lemma_synchronized(d: Seq<Turn>, branch: Seq<char>)
    requires
        transcripts::is_synchronized(d, branch),
    ensures
        dialogue::succeeds(
            |log: Seq<Reply>| sync::ensure_fully_synchronized_run(branch, log),
            d,
            (),
        ),
{
    let changed = dialogue::output_of(d[0].reply);
    let untracked = dialogue::output_of(d[1].reply);
    let remote = dialogue::output_of(d[2].reply);
    let counted = sync::sync_status_of(changed, untracked, remote);
    assert(counted.unsynced_files == 0) by {
        lists::law_synchronized_means_no_difference(changed, untracked, remote);
    }
    lemma_counted(d, branch);
    lemma_then_done(
        |log: Seq<Reply>| sync::ensure_fully_synchronized_run(branch, log),
        |log: Seq<Reply>| sync::sync_status_for_branch_run(branch, log),
        |status: SyncStatusView, log: Seq<Reply>|
            if status.unsynced_files == 0 {
                Run::Done((), log)
            } else {
                Run::Failed(
                    "Cannot claim this JIST session while "@ + sync::counted_files(
                        status.unsynced_files,
                    ) + " unsynchronized."@,
                    log,
                )
            },
        d,
        counted,
        (),
    );
}

#[verifier::spinoff_prover]
proof fn lemma_unclaimed(d: Seq<Turn>, branch: Seq<char>)
    requires
        d.len() == 1,
        transcripts::is_metadata(d[0], branch),
        claim::claim_in(dialogue::output_of(d[0].reply)) matches Ok(None),
    ensures
        dialogue::succeeds(
            |log: Seq<Reply>| claim::ensure_unclaimed_run(branch, log),
            d,
            (),
        ),
{
    lemma_owner(d, branch, None);
    lemma_then_done(
        |log: Seq<Reply>| claim::ensure_unclaimed_run(branch, log),
        |log: Seq<Reply>| claim::remote_claim_owner_run(branch, log),
        |owner: Option<ClaimeeIdView>, log: Seq<Reply>|
            match owner {
                Some(id) => claim::taken_run(id, log),
                None => Run::Done((), log),
            },
        d,
        None,
        (),
    );
}

/// The metadata of a claim of `id` as it was put together.
spec fn metadata_of(d: Seq<Turn>, id: ClaimeeIdView) -> Seq<char> {
    claim::claim_metadata_text(
        id,
        dialogue::output_of(d[0].reply),
        dialogue::output_of(d[1].reply),
        d[2].reply->Clock_0->Seconds_0,
    )
}

#[verifier::spinoff_prover]
proof fn lemma_metadata_for(d: Seq<Turn>, branch: Seq<char>, id: ClaimeeIdView)
    requires
        transcripts::is_claim_record(d, branch, id),
    ensures
        dialogue::succeeds(
            |log: Seq<Reply>| claim::metadata_for_run(id, log),
            d.take(3),
            metadata_of(d, id),
        ),
        transcripts::is_record(d.skip(3), branch, metadata_of(d, id)),
{
    let front = d.take(3);
    assert(front[0] == d[0] && front[1] == d[1] && front[2] == d[2]);
    assert("claimee_id="@ + id.user + "@"@ + id.machine =~= "claimee_id="@ + (id.user + "@"@
        + id.machine));
    dialogue::lemma_words();
    dialogue::lemma_replies();
    dialogue::lemma_made(|log: Seq<Reply>| claim::metadata_for_run(id, log), front);
}

#[verifier::spinoff_prover]
proof fn lemma_write_claim(d: Seq<Turn>, branch: Seq<char>, name: Seq<char>, e: int, id: ClaimeeIdView)
    requires
        2 <= e <= d.len(),
        transcripts::is_setup(d.take(e), id),
        transcripts::is_claim_record(d.skip(e), branch, id),
    ensures
        dialogue::succeeds(
            |log: Seq<Reply>| workflow::write_claim_run(branch, name, log),
            d,
            name,
        ),
{
    let record = d.skip(e);
    let metadata = metadata_of(record, id);
    lemma_metadata_for(record, branch, id);
    lemma_setup(d.take(e), id);
    let front = d.take(e + 3);
    assert(front.take(e) =~= d.take(e));
    assert(front.skip(e) =~= record.take(3));
    dialogue::lemma_join(
        |log: Seq<Reply>| claim::claim_metadata_run(log),
        |log: Seq<Reply>| claim::current_run(log),
        |id: ClaimeeIdView, log: Seq<Reply>| claim::metadata_for_run(id, log),
        front,
        e,
        id,
        metadata,
    );
    let tail = d.skip(e + 3);
    assert(tail =~= record.skip(3));
    lemma_record(tail, branch, metadata);
    let next = |metadata: Seq<char>, log: Seq<Reply>|
        workflow::record_metadata_run(branch, metadata, log).and_then(
            |_done: (), log: Seq<Reply>| Run::Done(name, log),
        );
    lemma_then_done(
        |log: Seq<Reply>| next(metadata, log),
        |log: Seq<Reply>| workflow::record_metadata_run(branch, metadata, log),
        |_done: (), log: Seq<Reply>| Run::Done(name, log),
        tail,
        (),
        name,
    );
    dialogue::lemma_join(
        |log: Seq<Reply>| workflow::write_claim_run(branch, name, log),
        |log: Seq<Reply>| claim::claim_metadata_run(log),
        next,
        d,
        e + 3,
        metadata,
        name,
    );
}

#[verifier::spinoff_prover]
proof fn lemma_claim_entered(d: Seq<Turn>, branch: Seq<char>, name: Seq<char>, e: int, id: ClaimeeIdView)
    requires
        4 + 2 <= e <= d.len(),
        transcripts::is_synchronized(d.take(3), branch),
        transcripts::is_metadata(d[3], branch),
        claim::claim_in(dialogue::output_of(d[3].reply)) matches Ok(None),
        transcripts::is_setup(d.subrange(4, e), id),
        transcripts::is_claim_record(d.skip(e), branch, id),
    ensures
        dialogue::succeeds(
            |log: Seq<Reply>| workflow::claim_entered_run(branch, name, log),
            d,
            name,
        ),
{
    lemma_synchronized(d.take(3), branch);
    let tail = d.skip(3);
    let end = tail.skip(1);
    assert(tail.take(1)[0] == d[3]);
    lemma_unclaimed(tail.take(1), branch);
    assert(end.take(e - 4) =~= d.subrange(4, e));
    assert(end.skip(e - 4) =~= d.skip(e));
    lemma_write_claim(end, branch, name, e - 4, id);
    dialogue::lemma_join(
        |log: Seq<Reply>| workflow::claim_synchronized_run(branch, name, log),
        |log: Seq<Reply>| claim::ensure_unclaimed_run(branch, log),
        |_done: (), log: Seq<Reply>| workflow::write_claim_run(branch, name, log),
        tail,
        1,
        (),
        name,
    );
    dialogue::lemma_join(
        |log: Seq<Reply>| workflow::claim_entered_run(branch, name, log),
        |log: Seq<Reply>| sync::ensure_fully_synchronized_run(branch, log),
        |_done: (), log: Seq<Reply>| workflow::claim_synchronized_run(branch, name, log),
        d,
        3,
        (),
        name,
    );
}

/// A claim is owed where the branch of a session is checked out, no file differs from the
/// remote branch, the metadata there states no claim, and the record succeeds.
#[verifier::spinoff_prover]
pub proof fn law_claim_is_owed(d: Seq<Turn>, name: Seq<char>, k: int, e: int, id: ClaimeeIdView)
    requires
        transcripts::is_claim(d, name, k, e, id),
    ensures
        dialogue::succeeds(|log: Seq<Reply>| workflow::claim_session_run(log), d, name),
{
    let refusal = "Check out a JIST session branch before running `jist claim`."@;
    let branch = "jist-"@ + name;
    let tail = d.skip(k);
    lemma_entry(d.take(k), refusal, branch, name);
    assert(tail.take(3) =~= d.subrange(k, k + 3));
    assert(tail[3] == d[k + 3]);
    assert(tail.subrange(4, e - k) =~= d.subrange(k + 4, e));
    assert(tail.skip(e - k) =~= d.skip(e));
    lemma_claim_entered(tail, branch, name, e - k, id);
    dialogue::lemma_join(
        |log: Seq<Reply>| workflow::claim_session_run(log),
        |log: Seq<Reply>| workflow::enter_session_run(refusal, log),
        |entered: (Seq<char>, Seq<char>), log: Seq<Reply>|
            workflow::claim_entered_run(entered.0, entered.1, log),
        d,
        k,
        (branch, name),
        name,
    );
}

} // verus!
