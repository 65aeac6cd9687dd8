//! Running a workflow again with more replies: what was read stays read, and in its turn.

use crate::claim;
use crate::claim::{ClaimInfoView, ClaimeeIdView};
use crate::command;
use crate::exchange::{Change, Reply, Run};
use crate::repository;
use crate::session;
use crate::session::{SessionInfoView, STATUS_SESSION_LIMIT};
use crate::status;
use crate::sync;
use crate::sync::SyncStatusView;
use crate::work;
use crate::work::{LoopStageView, WorkStageView, WorkStateView};
use crate::workflow;
use vstd::prelude::*;

verus! {

/// How a workflow goes on `log`, and how it goes when it is run again on `log` and `more` after
/// it. It leaves no more replies than it was given. Where it comes to its end, it ends in the
/// same way again and leaves all of `more` unread. Where it asks for something, it has read
/// all of `log` and at least the first of `more` when it comes to its end.
pub open spec fn replays<A>(
    workflow: spec_fn(Seq<Reply>) -> Run<A>,
    log: Seq<Reply>,
    more: Seq<Reply>,
) -> bool {
    match workflow(log) {
        Run::Done(value, rest) => rest.len() <= log.len() && workflow(log + more) == Run::Done(
            value,
            rest + more,
        ),
        Run::Failed(message, rest) => rest.len() <= log.len() && workflow(log + more) == Run::<
            A,
        >::Failed(message, rest + more),
        Run::Asks(_) => match workflow(log + more) {
            Run::Done(_, rest) => rest.len() < more.len(),
            Run::Failed(_, rest) => rest.len() < more.len(),
            Run::Asks(_) => true,
        },
    }
}

/// Where a workflow hands over to what follows it: its result, and the replies that are left
/// of `log` and of `more`.
spec fn onward<A>(
    workflow: spec_fn(Seq<Reply>) -> Run<A>,
    log: Seq<Reply>,
    more: Seq<Reply>,
) -> Option<(A, Seq<Reply>, Seq<Reply>)> {
    match workflow(log) {
        Run::Done(value, rest) => Some((value, rest, more)),
        Run::Failed(_, _) => None,
        Run::Asks(_) => match workflow(log + more) {
            Run::Done(value, rest) => Some((value, rest, Seq::empty())),
            _ => None,
        },
    }
}

pub(crate) proof fn lemma_log()
    ensures
        forall|log: Seq<Reply>, more: Seq<Reply>|
            log.len() > 0 ==> #[trigger] (log + more).skip(1) == log.skip(1) + more && (log
                + more)[0] == log[0],
        forall|log: Seq<Reply>, more: Seq<Reply>|
            log.len() == 0 ==> #[trigger] (log + more) == more,
        forall|log: Seq<Reply>| #[trigger] (log + Seq::empty()) == log,
{
    assert forall|log: Seq<Reply>, more: Seq<Reply>| log.len() > 0 implies #[trigger] (log
        + more).skip(1) == log.skip(1) + more by {
        assert((log + more).skip(1) =~= log.skip(1) + more);
    }
    assert forall|log: Seq<Reply>, more: Seq<Reply>| log.len() == 0 implies #[trigger] (log + more)
        == more by {
        assert(log + more =~= more);
    }
    assert forall|log: Seq<Reply>| #[trigger] (log + Seq::empty()) == log by {
        assert(log + Seq::empty() =~= log);
    }
}

pub(crate) proof fn lemma_current(log: Seq<Reply>, more: Seq<Reply>)
    ensures
        replays(|log: Seq<Reply>| claim::current_run(log), log, more),
{
    lemma_log();
}

pub(crate) proof fn lemma_reach_remote(log: Seq<Reply>, more: Seq<Reply>)
    ensures
        replays(|log: Seq<Reply>| repository::reach_remote_run(log), log, more),
{
    lemma_log();
}

pub(crate) proof fn lemma_gh_installed(log: Seq<Reply>, more: Seq<Reply>)
    ensures
        replays(|log: Seq<Reply>| command::ensure_gh_installed_run(log), log, more),
{
    lemma_log();
}

pub(crate) proof fn lemma_private_remote(repository: Seq<char>, log: Seq<Reply>, more: Seq<Reply>)
    ensures
        replays(|log: Seq<Reply>| workflow::private_remote_run(repository, log), log, more),
{
    lemma_log();
}

pub(crate) proof fn lemma_private_name(log: Seq<Reply>, more: Seq<Reply>)
    ensures
        replays(|log: Seq<Reply>| repository::private_name_run(log), log, more),
{
    lemma_log();
}

pub(crate) proof fn lemma_name_and_prepare(log: Seq<Reply>, more: Seq<Reply>)
    ensures
        replays(|log: Seq<Reply>| workflow::name_and_prepare_run(log), log, more),
{
    lemma_log();
    lemma_private_name(log, more);
    if let Some((value, log, more)) = onward(
        |log: Seq<Reply>| repository::private_name_run(log),
        log,
        more,
    ) {
        lemma_private_remote(value, log, more);
    }
}

pub(crate) proof fn lemma_prepare_remote(log: Seq<Reply>, more: Seq<Reply>)
    ensures
        replays(|log: Seq<Reply>| workflow::prepare_remote_run(log), log, more),
{
    lemma_log();
    lemma_gh_installed(log, more);
    if let Some((_, log, more)) = onward(
        |log: Seq<Reply>| command::ensure_gh_installed_run(log),
        log,
        more,
    ) {
        lemma_name_and_prepare(log, more);
    }
}

pub(crate) proof fn lemma_current_branch(log: Seq<Reply>, more: Seq<Reply>)
    ensures
        replays(|log: Seq<Reply>| session::current_branch_run(log), log, more),
{
    lemma_log();
}

pub(crate) proof fn lemma_fetch_branch(jist_branch: Seq<char>, log: Seq<Reply>, more: Seq<Reply>)
    ensures
        replays(|log: Seq<Reply>| session::fetch_jist_branch_run(jist_branch, log), log, more),
{
    lemma_log();
}

pub(crate) proof fn lemma_update(jist_branch: Seq<char>, log: Seq<Reply>, more: Seq<Reply>)
    ensures
        replays(|log: Seq<Reply>| workflow::update_run(jist_branch, log), log, more),
{
    lemma_log();
    lemma_reach_remote(log, more);
    if let Some((_, log, more)) = onward(
        |log: Seq<Reply>| repository::reach_remote_run(log),
        log,
        more,
    ) {
        lemma_fetch_branch(jist_branch, log, more);
    }
}

pub(crate) proof fn lemma_enter_installed(refusal: Seq<char>, log: Seq<Reply>, more: Seq<Reply>)
    ensures
        replays(|log: Seq<Reply>| workflow::enter_installed_run(refusal, log), log, more),
{
    lemma_log();
    lemma_current_branch(log, more);
    if let Some((value, log, more)) = onward(
        |log: Seq<Reply>| session::current_branch_run(log),
        log,
        more,
    ) {
        lemma_update(value, log, more);
    }
}

pub(crate) proof fn lemma_enter_session(refusal: Seq<char>, log: Seq<Reply>, more: Seq<Reply>)
    ensures
        replays(|log: Seq<Reply>| workflow::enter_session_run(refusal, log), log, more),
{
    lemma_log();
    lemma_gh_installed(log, more);
    if let Some((_, log, more)) = onward(
        |log: Seq<Reply>| command::ensure_gh_installed_run(log),
        log,
        more,
    ) {
        lemma_enter_installed(refusal, log, more);
    }
}

pub(crate) proof fn lemma_claim_info(jist_branch: Seq<char>, log: Seq<Reply>, more: Seq<Reply>)
    ensures
        replays(|log: Seq<Reply>| claim::remote_claim_info_run(jist_branch, log), log, more),
{
    lemma_log();
}

pub(crate) proof fn lemma_owner(jist_branch: Seq<char>, log: Seq<Reply>, more: Seq<Reply>)
    ensures
        replays(|log: Seq<Reply>| claim::remote_claim_owner_run(jist_branch, log), log, more),
{
    lemma_log();
}

pub(crate) proof fn lemma_is_known_current_setup(id: ClaimeeIdView, log: Seq<Reply>, more: Seq<Reply>)
    ensures
        replays(|log: Seq<Reply>| claim::is_known_current_setup_run(id, log), log, more),
{
    lemma_current(log, more);
}

pub(crate) proof fn lemma_refused(id: ClaimeeIdView, log: Seq<Reply>, more: Seq<Reply>)
    ensures
        replays(|log: Seq<Reply>| claim::refused_run(id, log), log, more),
{
    lemma_current(log, more);
}

pub(crate) proof fn lemma_allowed(id: ClaimeeIdView, log: Seq<Reply>, more: Seq<Reply>)
    ensures
        replays(|log: Seq<Reply>| claim::allowed_run(id, log), log, more),
{
    lemma_log();
    lemma_current(log, more);
    if let Some((_, log, more)) = onward(|log: Seq<Reply>| claim::current_run(log), log, more) {
        lemma_refused(id, log, more);
    }
}

pub(crate) proof fn lemma_taken(id: ClaimeeIdView, log: Seq<Reply>, more: Seq<Reply>)
    ensures
        replays(|log: Seq<Reply>| claim::taken_run(id, log), log, more),
{
    lemma_log();
    lemma_current(log, more);
    if let Some((_, log, more)) = onward(|log: Seq<Reply>| claim::current_run(log), log, more) {
        lemma_refused(id, log, more);
    }
}

pub(crate) proof fn lemma_claimed_gate(jist_branch: Seq<char>, log: Seq<Reply>, more: Seq<Reply>)
    ensures
        replays(
            |log: Seq<Reply>| claim::ensure_claimed_by_this_machine_run(jist_branch, log),
            log,
            more,
        ),
{
    lemma_log();
    lemma_owner(jist_branch, log, more);
    if let Some((Some(id), log, more)) = onward(
        |log: Seq<Reply>| claim::remote_claim_owner_run(jist_branch, log),
        log,
        more,
    ) {
        lemma_allowed(id, log, more);
    }
}

pub(crate) proof fn lemma_unclaimed_gate(jist_branch: Seq<char>, log: Seq<Reply>, more: Seq<Reply>)
    ensures
        replays(|log: Seq<Reply>| claim::ensure_unclaimed_run(jist_branch, log), log, more),
{
    lemma_log();
    lemma_owner(jist_branch, log, more);
    if let Some((Some(id), log, more)) = onward(
        |log: Seq<Reply>| claim::remote_claim_owner_run(jist_branch, log),
        log,
        more,
    ) {
        lemma_taken(id, log, more);
    }
}

pub(crate) proof fn lemma_claim_state(jist_branch: Seq<char>, log: Seq<Reply>, more: Seq<Reply>)
    ensures
        replays(
            |log: Seq<Reply>| claim::claim_state_for_branch_run(jist_branch, log),
            log,
            more,
        ),
{
    lemma_owner(jist_branch, log, more);
    if let Some((owner, log, more)) = onward(
        |log: Seq<Reply>| claim::remote_claim_owner_run(jist_branch, log),
        log,
        more,
    ) {
        lemma_current(log, more);
    }
}

pub(crate) proof fn lemma_sync_status(jist_branch: Seq<char>, log: Seq<Reply>, more: Seq<Reply>)
    ensures
        replays(|log: Seq<Reply>| sync::sync_status_for_branch_run(jist_branch, log), log, more),
{
    lemma_log();
}

pub(crate) proof fn lemma_synchronized(jist_branch: Seq<char>, log: Seq<Reply>, more: Seq<Reply>)
    ensures
        replays(|log: Seq<Reply>| sync::ensure_fully_synchronized_run(jist_branch, log), log, more),
{
    lemma_sync_status(jist_branch, log, more);
}

pub(crate) proof fn lemma_metadata_for(id: ClaimeeIdView, log: Seq<Reply>, more: Seq<Reply>)
    ensures
        replays(|log: Seq<Reply>| claim::metadata_for_run(id, log), log, more),
{
    lemma_log();
}

pub(crate) proof fn lemma_claim_metadata(log: Seq<Reply>, more: Seq<Reply>)
    ensures
        replays(|log: Seq<Reply>| claim::claim_metadata_run(log), log, more),
{
    lemma_log();
    lemma_current(log, more);
    if let Some((value, log, more)) = onward(|log: Seq<Reply>| claim::current_run(log), log, more) {
        lemma_metadata_for(value, log, more);
    }
}

pub(crate) proof fn lemma_record_metadata(
    jist_branch: Seq<char>,
    metadata: Seq<char>,
    log: Seq<Reply>,
    more: Seq<Reply>,
)
    ensures
        replays(
            |log: Seq<Reply>| workflow::record_metadata_run(jist_branch, metadata, log),
            log,
            more,
        ),
{
    lemma_log();
}

pub(crate) proof fn lemma_write_claim(branch: Seq<char>, name: Seq<char>, log: Seq<Reply>, more: Seq<Reply>)
    ensures
        replays(|log: Seq<Reply>| workflow::write_claim_run(branch, name, log), log, more),
{
    lemma_log();
    lemma_claim_metadata(log, more);
    if let Some((value, log, more)) = onward(
        |log: Seq<Reply>| claim::claim_metadata_run(log),
        log,
        more,
    ) {
        lemma_record_metadata(branch, value, log, more);
    }
}

pub(crate) proof fn lemma_claim_synchronized(
    branch: Seq<char>,
    name: Seq<char>,
    log: Seq<Reply>,
    more: Seq<Reply>,
)
    ensures
        replays(|log: Seq<Reply>| workflow::claim_synchronized_run(branch, name, log), log, more),
{
    lemma_log();
    lemma_unclaimed_gate(branch, log, more);
    if let Some((_, log, more)) = onward(
        |log: Seq<Reply>| claim::ensure_unclaimed_run(branch, log),
        log,
        more,
    ) {
        lemma_write_claim(branch, name, log, more);
    }
}

pub(crate) proof fn lemma_claim_entered(branch: Seq<char>, name: Seq<char>, log: Seq<Reply>, more: Seq<Reply>)
    ensures
        replays(|log: Seq<Reply>| workflow::claim_entered_run(branch, name, log), log, more),
{
    lemma_log();
    lemma_synchronized(branch, log, more);
    if let Some((_, log, more)) = onward(
        |log: Seq<Reply>| sync::ensure_fully_synchronized_run(branch, log),
        log,
        more,
    ) {
        lemma_claim_synchronized(branch, name, log, more);
    }
}

pub(crate) proof fn lemma_push_changes(jist_branch: Seq<char>, log: Seq<Reply>, more: Seq<Reply>)
    ensures
        replays(|log: Seq<Reply>| workflow::push_changes_run(jist_branch, log), log, more),
{
    lemma_log();
}

pub(crate) proof fn lemma_push_entered(branch: Seq<char>, name: Seq<char>, log: Seq<Reply>, more: Seq<Reply>)
    ensures
        replays(|log: Seq<Reply>| workflow::push_entered_run(branch, name, log), log, more),
{
    lemma_log();
    lemma_claimed_gate(branch, log, more);
    if let Some((_, log, more)) = onward(
        |log: Seq<Reply>| claim::ensure_claimed_by_this_machine_run(branch, log),
        log,
        more,
    ) {
        lemma_push_changes(branch, log, more);
    }
}

pub(crate) proof fn lemma_unclaim_entered(
    branch: Seq<char>,
    name: Seq<char>,
    log: Seq<Reply>,
    more: Seq<Reply>,
)
    ensures
        replays(|log: Seq<Reply>| workflow::unclaim_entered_run(branch, name, log), log, more),
{
    lemma_log();
    lemma_claimed_gate(branch, log, more);
    if let Some((_, log, more)) = onward(
        |log: Seq<Reply>| claim::ensure_claimed_by_this_machine_run(branch, log),
        log,
        more,
    ) {
        lemma_record_metadata(branch, "initialized=true\n"@, log, more);
    }
}

pub(crate) proof fn lemma_claim(log: Seq<Reply>, more: Seq<Reply>)
    ensures
        replays(|log: Seq<Reply>| workflow::claim_session_run(log), log, more),
{
    lemma_log();
    let refusal = "Check out a JIST session branch before running `jist claim`."@;
    lemma_enter_session(refusal, log, more);
    if let Some((value, log, more)) = onward(
        |log: Seq<Reply>| workflow::enter_session_run(refusal, log),
        log,
        more,
    ) {
        lemma_claim_entered(value.0, value.1, log, more);
    }
}

pub(crate) proof fn lemma_push(log: Seq<Reply>, more: Seq<Reply>)
    ensures
        replays(|log: Seq<Reply>| workflow::push_session_run(log), log, more),
{
    lemma_log();
    let refusal = "Check out a JIST session branch before running `jist push`."@;
    lemma_enter_session(refusal, log, more);
    if let Some((value, log, more)) = onward(
        |log: Seq<Reply>| workflow::enter_session_run(refusal, log),
        log,
        more,
    ) {
        lemma_push_entered(value.0, value.1, log, more);
    }
}

pub(crate) proof fn lemma_unclaim(log: Seq<Reply>, more: Seq<Reply>)
    ensures
        replays(|log: Seq<Reply>| workflow::unclaim_session_run(log), log, more),
{
    lemma_log();
    let refusal = "Check out a JIST session branch before running `jist unclaim`."@;
    lemma_enter_session(refusal, log, more);
    if let Some((value, log, more)) = onward(
        |log: Seq<Reply>| workflow::enter_session_run(refusal, log),
        log,
        more,
    ) {
        lemma_unclaim_entered(value.0, value.1, log, more);
    }
}

pub(crate) proof fn lemma_checkout_branch(jist_branch: Seq<char>, log: Seq<Reply>, more: Seq<Reply>)
    ensures
        replays(|log: Seq<Reply>| workflow::checkout_jist_branch_run(jist_branch, log), log, more),
{
    lemma_log();
}

pub(crate) proof fn lemma_clean_worktree(log: Seq<Reply>, more: Seq<Reply>)
    ensures
        replays(|log: Seq<Reply>| workflow::ensure_clean_worktree_run(log), log, more),
{
    lemma_log();
}

pub(crate) proof fn lemma_checkout(session_name: Seq<char>, log: Seq<Reply>, more: Seq<Reply>)
    ensures
        replays(|log: Seq<Reply>| workflow::checkout_session_run(session_name, log), log, more),
{
    lemma_log();
    lemma_clean_worktree(log, more);
    if let Some((_, log, more)) = onward(
        |log: Seq<Reply>| workflow::ensure_clean_worktree_run(log),
        log,
        more,
    ) {
        lemma_checkout_branch(session::branch_of(session_name), log, more);
    }
}

#[verifier::spinoff_prover]
pub(crate) proof fn lemma_open_remote(log: Seq<Reply>, more: Seq<Reply>)
    ensures
        replays(|log: Seq<Reply>| repository::open_remote_run(log), log, more),
{
    lemma_log();
}

pub(crate) proof fn lemma_branch_commit(branch_name: Seq<char>, log: Seq<Reply>, more: Seq<Reply>)
    ensures
        replays(|log: Seq<Reply>| session::remote_branch_commit_run(branch_name, log), log, more),
{
    lemma_log();
}

pub(crate) proof fn lemma_delete_found(
    session_name: Seq<char>,
    commit: Option<Seq<char>>,
    log: Seq<Reply>,
    more: Seq<Reply>,
)
    ensures
        replays(|log: Seq<Reply>| workflow::delete_found_run(session_name, commit, log), log, more),
{
    lemma_log();
}

pub(crate) proof fn lemma_delete_opened(session_name: Seq<char>, log: Seq<Reply>, more: Seq<Reply>)
    ensures
        replays(|log: Seq<Reply>| workflow::delete_opened_run(session_name, log), log, more),
{
    lemma_log();
    lemma_branch_commit(session::branch_of(session_name), log, more);
    if let Some((value, log, more)) = onward(
        |log: Seq<Reply>| session::remote_branch_commit_run(session::branch_of(session_name), log),
        log,
        more,
    ) {
        lemma_delete_found(session_name, value, log, more);
    }
}

pub(crate) proof fn lemma_delete(session_name: Seq<char>, log: Seq<Reply>, more: Seq<Reply>)
    ensures
        replays(|log: Seq<Reply>| workflow::delete_session_run(session_name, log), log, more),
{
    lemma_log();
    lemma_open_remote(log, more);
    if let Some((_, log, more)) = onward(
        |log: Seq<Reply>| repository::open_remote_run(log),
        log,
        more,
    ) {
        lemma_delete_opened(session_name, log, more);
    }
}

pub(crate) proof fn lemma_index_file(log: Seq<Reply>, more: Seq<Reply>)
    ensures
        replays(|log: Seq<Reply>| workflow::index_file_run(log), log, more),
{
    lemma_log();
}

pub(crate) proof fn lemma_commit_metadata(
    session_name: Seq<char>,
    head: Seq<char>,
    index_path: Seq<char>,
    log: Seq<Reply>,
    more: Seq<Reply>,
)
    ensures
        replays(
            |log: Seq<Reply>| workflow::commit_metadata_run(session_name, head, index_path, log),
            log,
            more,
        ),
{
    lemma_log();
}

pub(crate) proof fn lemma_create_commit(session_name: Seq<char>, log: Seq<Reply>, more: Seq<Reply>)
    ensures
        replays(
            |log: Seq<Reply>| workflow::create_jist_meta_commit_run(session_name, log),
            log,
            more,
        ),
{
    lemma_log();
    lemma_index_file(log, more);
    if let Some((value, log, more)) = onward(
        |log: Seq<Reply>| workflow::index_file_run(log),
        log,
        more,
    ) {
        lemma_commit_metadata(session_name, value.0, value.2, log, more);
    }
}

pub(crate) proof fn lemma_ensure_session(
    session_name: Seq<char>,
    commit: Option<Seq<char>>,
    log: Seq<Reply>,
    more: Seq<Reply>,
)
    ensures
        replays(
            |log: Seq<Reply>| workflow::ensure_session_run(session_name, commit, log),
            log,
            more,
        ),
{
    lemma_log();
    lemma_create_commit(session_name, log, more);
}

pub(crate) proof fn lemma_start_found(
    session_name: Seq<char>,
    found: Option<Seq<char>>,
    log: Seq<Reply>,
    more: Seq<Reply>,
)
    ensures
        replays(|log: Seq<Reply>| workflow::start_found_run(session_name, found, log), log, more),
{
    lemma_log();
    lemma_ensure_session(session_name, found, log, more);
    if let Some((_, log, more)) = onward(
        |log: Seq<Reply>| workflow::ensure_session_run(session_name, found, log),
        log,
        more,
    ) {
        lemma_checkout_branch(session::branch_of(session_name), log, more);
    }
}

pub(crate) proof fn lemma_start_on_branch(session_name: Seq<char>, log: Seq<Reply>, more: Seq<Reply>)
    ensures
        replays(|log: Seq<Reply>| workflow::start_on_branch_run(session_name, log), log, more),
{
    lemma_log();
    lemma_branch_commit(session::branch_of(session_name), log, more);
    if let Some((value, log, more)) = onward(
        |log: Seq<Reply>| session::remote_branch_commit_run(session::branch_of(session_name), log),
        log,
        more,
    ) {
        lemma_start_found(session_name, value, log, more);
    }
}

pub(crate) proof fn lemma_start_prepared(session_name: Seq<char>, log: Seq<Reply>, more: Seq<Reply>)
    ensures
        replays(|log: Seq<Reply>| workflow::start_prepared_run(session_name, log), log, more),
{
    lemma_log();
    lemma_current_branch(log, more);
    if let Some((_, log, more)) = onward(
        |log: Seq<Reply>| session::current_branch_run(log),
        log,
        more,
    ) {
        lemma_start_on_branch(session_name, log, more);
    }
}

pub(crate) proof fn lemma_start(session_name: Seq<char>, log: Seq<Reply>, more: Seq<Reply>)
    ensures
        replays(|log: Seq<Reply>| workflow::start_jist_session_run(session_name, log), log, more),
{
    lemma_log();
    lemma_prepare_remote(log, more);
    if let Some((_, log, more)) = onward(
        |log: Seq<Reply>| workflow::prepare_remote_run(log),
        log,
        more,
    ) {
        lemma_start_prepared(session_name, log, more);
    }
}

pub(crate) proof fn lemma_base_commit(jist_branch: Seq<char>, log: Seq<Reply>, more: Seq<Reply>)
    ensures
        replays(|log: Seq<Reply>| session::base_commit_run(jist_branch, log), log, more),
{
    lemma_log();
}

pub(crate) proof fn lemma_bases(
    found: Seq<SessionInfoView>,
    rest: Seq<SessionInfoView>,
    log: Seq<Reply>,
    more: Seq<Reply>,
)
    ensures
        replays(|log: Seq<Reply>| session::with_base_commits_run(found, rest, log), log, more),
    decreases rest.len(),
{
    if rest.len() > 0 {
        lemma_log();
        lemma_base_commit(session::branch_of(rest[0].name), log, more);
        if let Some((value, log, more)) = onward(
            |log: Seq<Reply>| session::base_commit_run(session::branch_of(rest[0].name), log),
            log,
            more,
        ) {
            lemma_bases(
                found.push(SessionInfoView { base_commit: value, ..rest[0] }),
                rest.skip(1),
                log,
                more,
            );
        }
    }
}

pub(crate) proof fn lemma_refs(log: Seq<Reply>, more: Seq<Reply>)
    ensures
        replays(|log: Seq<Reply>| session::fetch_and_list_run(log), log, more),
{
    lemma_log();
}

pub(crate) proof fn lemma_listed_sessions(log: Seq<Reply>, more: Seq<Reply>)
    ensures
        replays(|log: Seq<Reply>| session::listed_sessions_run(log), log, more),
{
    lemma_log();
    lemma_refs(log, more);
    if let Some((value, log, more)) = onward(
        |log: Seq<Reply>| session::fetch_and_list_run(log),
        log,
        more,
    ) {
        lemma_bases(Seq::empty(), session::sessions_in(value), log, more);
    }
}

pub(crate) proof fn lemma_list_sessions(log: Seq<Reply>, more: Seq<Reply>)
    ensures
        replays(|log: Seq<Reply>| session::list_sessions_run(log), log, more),
{
    lemma_log();
    lemma_open_remote(log, more);
    if let Some((_, log, more)) = onward(
        |log: Seq<Reply>| repository::open_remote_run(log),
        log,
        more,
    ) {
        lemma_listed_sessions(log, more);
    }
}

pub(crate) proof fn lemma_checked_out(sessions: Seq<SessionInfoView>, log: Seq<Reply>, more: Seq<Reply>)
    ensures
        replays(|log: Seq<Reply>| session::checked_out_among_run(sessions, log), log, more),
{
    lemma_log();
}

pub(crate) proof fn lemma_current_session(log: Seq<Reply>, more: Seq<Reply>)
    ensures
        replays(|log: Seq<Reply>| session::current_session_name_run(log), log, more),
{
    lemma_log();
    lemma_list_sessions(log, more);
    if let Some((value, log, more)) = onward(
        |log: Seq<Reply>| session::list_sessions_run(log),
        log,
        more,
    ) {
        lemma_checked_out(value, log, more);
    }
}

pub(crate) proof fn lemma_address(session: SessionInfoView, log: Seq<Reply>, more: Seq<Reply>)
    ensures
        replays(|log: Seq<Reply>| status::address_run(session, log), log, more),
{
    lemma_log();
}

pub(crate) proof fn lemma_condition(session: SessionInfoView, log: Seq<Reply>, more: Seq<Reply>)
    ensures
        replays(|log: Seq<Reply>| status::condition_run(session, log), log, more),
{
    lemma_log();
    lemma_sync_status(session::branch_of(session.name), log, more);
    if let Some((_, log, more)) = onward(
        |log: Seq<Reply>| sync::sync_status_for_branch_run(session::branch_of(session.name), log),
        log,
        more,
    ) {
        lemma_claim_info(session::branch_of(session.name), log, more);
    }
}

pub(crate) proof fn lemma_own_claim(claim: Option<ClaimInfoView>, log: Seq<Reply>, more: Seq<Reply>)
    ensures
        replays(|log: Seq<Reply>| status::is_own_claim_run(claim, log), log, more),
{
    if let Some(claim) = claim {
        lemma_is_known_current_setup(claim.claimee_id, log, more);
    }
}

pub(crate) proof fn lemma_claim_message(claim: ClaimInfoView, log: Seq<Reply>, more: Seq<Reply>)
    ensures
        replays(|log: Seq<Reply>| status::current_user_claim_message_run(claim, log), log, more),
{
    lemma_log();
}

pub(crate) proof fn lemma_claim_duration(claim: ClaimInfoView, log: Seq<Reply>, more: Seq<Reply>)
    ensures
        replays(|log: Seq<Reply>| status::claim_duration_run(claim, log), log, more),
{
    lemma_log();
}

pub(crate) proof fn lemma_indicator_of(claim: ClaimInfoView, log: Seq<Reply>, more: Seq<Reply>)
    ensures
        replays(|log: Seq<Reply>| status::claim_indicator_run(claim, log), log, more),
{
    lemma_log();
    lemma_is_known_current_setup(claim.claimee_id, log, more);
    if let Some((_, log, more)) = onward(
        |log: Seq<Reply>| claim::is_known_current_setup_run(claim.claimee_id, log),
        log,
        more,
    ) {
        lemma_claim_message(claim, log, more);
        lemma_claim_duration(claim, log, more);
    }
}

pub(crate) proof fn lemma_indicator(claim: Option<ClaimInfoView>, log: Seq<Reply>, more: Seq<Reply>)
    ensures
        replays(|log: Seq<Reply>| status::work_indicator_run(claim, log), log, more),
{
    if let Some(claim) = claim {
        lemma_indicator_of(claim, log, more);
    }
}

pub(crate) proof fn lemma_claim_texts(
    session: SessionInfoView,
    short_base_commit: Seq<char>,
    claim: Option<ClaimInfoView>,
    log: Seq<Reply>,
    more: Seq<Reply>,
)
    ensures
        replays(
            |log: Seq<Reply>| status::claim_texts_run(session, short_base_commit, claim, log),
            log,
            more,
        ),
{
    lemma_log();
    lemma_own_claim(claim, log, more);
    if let Some((_, log, more)) = onward(
        |log: Seq<Reply>| status::is_own_claim_run(claim, log),
        log,
        more,
    ) {
        lemma_indicator(claim, log, more);
    }
}

pub(crate) proof fn lemma_section(
    counted: SyncStatusView,
    push_deadline: Option<u128>,
    log: Seq<Reply>,
    more: Seq<Reply>,
)
    ensures
        replays(|log: Seq<Reply>| status::sync_section_run(counted, push_deadline, log), log, more),
{
    lemma_log();
}

pub(crate) proof fn lemma_status_page(
    session: SessionInfoView,
    push_deadline: Option<u128>,
    url: Seq<char>,
    short_base_commit: Seq<char>,
    counted: SyncStatusView,
    claim: Option<ClaimInfoView>,
    log: Seq<Reply>,
    more: Seq<Reply>,
)
    ensures
        replays(
            |log: Seq<Reply>|
                status::status_page_run(
                    session,
                    push_deadline,
                    url,
                    short_base_commit,
                    counted,
                    claim,
                    log,
                ),
            log,
            more,
        ),
{
    lemma_log();
    lemma_claim_texts(session, short_base_commit, claim, log, more);
    if let Some((_, log, more)) = onward(
        |log: Seq<Reply>| status::claim_texts_run(session, short_base_commit, claim, log),
        log,
        more,
    ) {
        lemma_section(counted, push_deadline, log, more);
    }
}

pub(crate) proof fn lemma_addressed_page(
    session: SessionInfoView,
    push_deadline: Option<u128>,
    url: Seq<char>,
    short_base_commit: Seq<char>,
    log: Seq<Reply>,
    more: Seq<Reply>,
)
    ensures
        replays(
            |log: Seq<Reply>|
                status::addressed_page_run(session, push_deadline, url, short_base_commit, log),
            log,
            more,
        ),
{
    lemma_log();
    lemma_condition(session, log, more);
    if let Some((value, log, more)) = onward(
        |log: Seq<Reply>| status::condition_run(session, log),
        log,
        more,
    ) {
        lemma_status_page(
            session,
            push_deadline,
            url,
            short_base_commit,
            value.0,
            value.1,
            log,
            more,
        );
    }
}

pub(crate) proof fn lemma_working_commit(
    session: SessionInfoView,
    push_deadline: Option<u128>,
    log: Seq<Reply>,
    more: Seq<Reply>,
)
    ensures
        replays(
            |log: Seq<Reply>| status::working_commit_status_run(session, push_deadline, log),
            log,
            more,
        ),
{
    lemma_log();
    lemma_address(session, log, more);
    if let Some((value, log, more)) = onward(
        |log: Seq<Reply>| status::address_run(session, log),
        log,
        more,
    ) {
        lemma_addressed_page(session, push_deadline, value.0, value.1, log, more);
    }
}

pub(crate) proof fn lemma_entry(
    session: SessionInfoView,
    selected: Option<Seq<char>>,
    log: Seq<Reply>,
    more: Seq<Reply>,
)
    ensures
        replays(|log: Seq<Reply>| status::list_entry_run(session, selected, log), log, more),
{
    lemma_log();
}

pub(crate) proof fn lemma_entries(
    shown: Seq<char>,
    rest: Seq<SessionInfoView>,
    selected: Option<Seq<char>>,
    log: Seq<Reply>,
    more: Seq<Reply>,
)
    ensures
        replays(|log: Seq<Reply>| status::list_entries_run(shown, rest, selected, log), log, more),
    decreases rest.len(),
{
    if rest.len() > 0 {
        lemma_log();
        lemma_entry(rest[0], selected, log, more);
        if let Some((value, log, more)) = onward(
            |log: Seq<Reply>| status::list_entry_run(rest[0], selected, log),
            log,
            more,
        ) {
            lemma_entries(shown + value, rest.skip(1), selected, log, more);
        }
    }
}

pub(crate) proof fn lemma_list(
    sessions: Seq<SessionInfoView>,
    limit: Option<usize>,
    selected: Option<Seq<char>>,
    log: Seq<Reply>,
    more: Seq<Reply>,
)
    ensures
        replays(
            |log: Seq<Reply>| status::session_list_run(sessions, limit, selected, log),
            log,
            more,
        ),
{
    let visible = status::shown_count(sessions.len(), limit);
    lemma_entries(Seq::empty(), sessions.take(visible as int), selected, log, more);
}

pub(crate) proof fn lemma_all_among(sessions: Seq<SessionInfoView>, log: Seq<Reply>, more: Seq<Reply>)
    ensures
        replays(|log: Seq<Reply>| status::all_among_run(sessions, log), log, more),
{
    lemma_log();
    lemma_checked_out(sessions, log, more);
    if let Some((value, log, more)) = onward(
        |log: Seq<Reply>| session::checked_out_among_run(sessions, log),
        log,
        more,
    ) {
        lemma_list(sessions, None, value, log, more);
    }
}

pub(crate) proof fn lemma_all_sessions(log: Seq<Reply>, more: Seq<Reply>)
    ensures
        replays(|log: Seq<Reply>| status::render_all_sessions_run(log), log, more),
{
    lemma_log();
    lemma_list_sessions(log, more);
    if let Some((value, log, more)) = onward(
        |log: Seq<Reply>| session::list_sessions_run(log),
        log,
        more,
    ) {
        lemma_all_among(value, log, more);
    }
}

pub(crate) proof fn lemma_on_session(
    session: SessionInfoView,
    sessions: Seq<SessionInfoView>,
    selected: Option<Seq<char>>,
    log: Seq<Reply>,
    more: Seq<Reply>,
)
    ensures
        replays(
            |log: Seq<Reply>| status::on_session_run(session, sessions, selected, log),
            log,
            more,
        ),
{
    lemma_log();
    lemma_working_commit(session, None, log, more);
    if let Some((_, log, more)) = onward(
        |log: Seq<Reply>| status::working_commit_status_run(session, None, log),
        log,
        more,
    ) {
        lemma_list(sessions, Some(STATUS_SESSION_LIMIT), selected, log, more);
    }
}

pub(crate) proof fn lemma_off_session(
    head: Seq<char>,
    short_head: Seq<char>,
    sessions: Seq<SessionInfoView>,
    selected: Option<Seq<char>>,
    log: Seq<Reply>,
    more: Seq<Reply>,
)
    ensures
        replays(
            |log: Seq<Reply>| status::off_session_run(head, short_head, sessions, selected, log),
            log,
            more,
        ),
{
    lemma_log();
    lemma_list(status::based_on(sessions, head), Some(STATUS_SESSION_LIMIT), selected, log, more);
    if let Some((_, log, more)) = onward(
        |log: Seq<Reply>|
            status::session_list_run(
                status::based_on(sessions, head),
                Some(STATUS_SESSION_LIMIT),
                selected,
                log,
            ),
        log,
        more,
    ) {
        lemma_list(
            status::not_based_on(sessions, head),
            Some(STATUS_SESSION_LIMIT),
            selected,
            log,
            more,
        );
    }
}

pub(crate) proof fn lemma_standing(sessions: Seq<SessionInfoView>, log: Seq<Reply>, more: Seq<Reply>)
    ensures
        replays(|log: Seq<Reply>| status::standing_run(sessions, log), log, more),
{
    lemma_log();
}

pub(crate) proof fn lemma_page_at(
    head: Seq<char>,
    short_head: Seq<char>,
    sessions: Seq<SessionInfoView>,
    selected: Option<Seq<char>>,
    log: Seq<Reply>,
    more: Seq<Reply>,
)
    ensures
        replays(
            |log: Seq<Reply>| status::page_at_run(head, short_head, sessions, selected, log),
            log,
            more,
        ),
{
    match session::session_at(sessions, head) {
        Some(session) => lemma_on_session(session, sessions, selected, log, more),
        None => lemma_off_session(head, short_head, sessions, selected, log, more),
    }
}

pub(crate) proof fn lemma_status_among(sessions: Seq<SessionInfoView>, log: Seq<Reply>, more: Seq<Reply>)
    ensures
        replays(|log: Seq<Reply>| status::status_among_run(sessions, log), log, more),
{
    lemma_log();
    lemma_standing(sessions, log, more);
    if let Some((value, log, more)) = onward(
        |log: Seq<Reply>| status::standing_run(sessions, log),
        log,
        more,
    ) {
        lemma_page_at(value.0, value.1, sessions, value.2, log, more);
    }
}

pub(crate) proof fn lemma_status(log: Seq<Reply>, more: Seq<Reply>)
    ensures
        replays(|log: Seq<Reply>| status::render_status_run(log), log, more),
{
    lemma_log();
    lemma_list_sessions(log, more);
    if let Some((value, log, more)) = onward(
        |log: Seq<Reply>| session::list_sessions_run(log),
        log,
        more,
    ) {
        lemma_status_among(value, log, more);
    }
}

pub(crate) proof fn lemma_head(log: Seq<Reply>, more: Seq<Reply>)
    ensures
        replays(|log: Seq<Reply>| session::head_run(log), log, more),
{
    lemma_log();
}

pub(crate) proof fn lemma_work_status_among(
    sessions: Seq<SessionInfoView>,
    push_deadline: Option<u128>,
    log: Seq<Reply>,
    more: Seq<Reply>,
)
    ensures
        replays(
            |log: Seq<Reply>| status::work_status_among_run(sessions, push_deadline, log),
            log,
            more,
        ),
{
    lemma_log();
    lemma_head(log, more);
    if let Some((value, log, more)) = onward(|log: Seq<Reply>| session::head_run(log), log, more) {
        match session::session_at(sessions, value) {
            Some(session) => lemma_working_commit(session, push_deadline, log, more),
            None => lemma_status(log, more),
        }
    }
}

pub(crate) proof fn lemma_work_session_status(push_deadline: Option<u128>, log: Seq<Reply>, more: Seq<Reply>)
    ensures
        replays(
            |log: Seq<Reply>| status::render_work_session_status_run(push_deadline, log),
            log,
            more,
        ),
{
    lemma_log();
    lemma_list_sessions(log, more);
    if let Some((value, log, more)) = onward(
        |log: Seq<Reply>| session::list_sessions_run(log),
        log,
        more,
    ) {
        lemma_work_status_among(value, push_deadline, log, more);
    }
}

pub(crate) proof fn lemma_print_page(
    message: Seq<char>,
    push_deadline: Option<u128>,
    log: Seq<Reply>,
    more: Seq<Reply>,
)
    ensures
        replays(|log: Seq<Reply>| work::print_page_run(message, push_deadline, log), log, more),
{
    lemma_log();
    lemma_work_session_status(push_deadline, log, more);
}

pub(crate) proof fn lemma_work_status(
    message: Seq<char>,
    push_deadline: Option<u128>,
    log: Seq<Reply>,
    more: Seq<Reply>,
)
    ensures
        replays(
            |log: Seq<Reply>| work::render_work_status_run(message, push_deadline, log),
            log,
            more,
        ),
{
    lemma_log();
    if log.len() > 0 {
        lemma_print_page(message, push_deadline, log.skip(1), more);
    } else if more.len() > 0 {
        lemma_print_page(message, push_deadline, more.skip(1), Seq::empty());
    }
}

pub(crate) proof fn lemma_shown(state: WorkStateView, log: Seq<Reply>, more: Seq<Reply>)
    ensures
        replays(|log: Seq<Reply>| work::shown_run(state, log), log, more),
{
    lemma_work_status(state.message, state.push_deadline, log, more);
}

pub(crate) proof fn lemma_noticed(log: Seq<Reply>, more: Seq<Reply>)
    ensures
        replays(|log: Seq<Reply>| work::noticed_run(log), log, more),
{
    lemma_log();
    if log.len() > 0 && log[0] is Monotonic {
        lemma_shown(work::state_after(log[0]->Monotonic_0), log.skip(1), more);
    } else if log.len() == 0 && more.len() > 0 && more[0] is Monotonic {
        lemma_shown(work::state_after(more[0]->Monotonic_0), more.skip(1), Seq::empty());
    }
}

pub(crate) proof fn lemma_after_change(state: WorkStateView, change: Change, log: Seq<Reply>, more: Seq<Reply>)
    ensures
        replays(|log: Seq<Reply>| work::after_change_run(state, change, log), log, more),
{
    match change {
        Change::Paths(_) => lemma_noticed(log, more),
        Change::Problem(error) => lemma_shown(work::warned(state, error@), log, more),
        Change::Quiet => lemma_shown(state, log, more),
        Change::Disconnected => {},
    }
}

pub(crate) proof fn lemma_push_once(log: Seq<Reply>, more: Seq<Reply>)
    ensures
        replays(|log: Seq<Reply>| work::push_once_run(log), log, more),
{
    lemma_push(log, more);
    lemma_log();
}

pub(crate) proof fn lemma_push_and_show(log: Seq<Reply>, more: Seq<Reply>)
    ensures
        replays(|log: Seq<Reply>| work::push_and_show_run(log), log, more),
{
    lemma_log();
    lemma_push_once(log, more);
    if let Some((value, log, more)) = onward(
        |log: Seq<Reply>| work::push_once_run(log),
        log,
        more,
    ) {
        lemma_shown(value, log, more);
    }
}

pub(crate) proof fn lemma_push_now(push_deadline: Option<u128>, log: Seq<Reply>, more: Seq<Reply>)
    ensures
        replays(|log: Seq<Reply>| work::push_now_run(push_deadline, log), log, more),
{
    lemma_log();
    lemma_work_status("Pushing changes..."@, push_deadline, log, more);
    if let Some((_, log, more)) = onward(
        |log: Seq<Reply>| work::render_work_status_run("Pushing changes..."@, push_deadline, log),
        log,
        more,
    ) {
        lemma_push_and_show(log, more);
    }
}

pub(crate) proof fn lemma_due(push_deadline: Option<u128>, log: Seq<Reply>, more: Seq<Reply>)
    ensures
        replays(|log: Seq<Reply>| work::is_due_run(push_deadline, log), log, more),
{
    lemma_log();
}

pub(crate) proof fn lemma_push_if_due(state: WorkStateView, log: Seq<Reply>, more: Seq<Reply>)
    ensures
        replays(|log: Seq<Reply>| work::push_if_due_run(state, log), log, more),
{
    lemma_log();
    lemma_due(state.push_deadline, log, more);
    if let Some((_, log, more)) = onward(
        |log: Seq<Reply>| work::is_due_run(state.push_deadline, log),
        log,
        more,
    ) {
        lemma_push_now(state.push_deadline, log, more);
    }
}

pub(crate) proof fn lemma_turn(state: WorkStateView, change: Change, log: Seq<Reply>, more: Seq<Reply>)
    ensures
        replays(|log: Seq<Reply>| work::turn_run(state, change, log), log, more),
{
    lemma_log();
    lemma_after_change(state, change, log, more);
    if let Some((value, log, more)) = onward(
        |log: Seq<Reply>| work::after_change_run(state, change, log),
        log,
        more,
    ) {
        lemma_push_if_due(value, log, more);
    }
}

pub(crate) proof fn lemma_wait(state: WorkStateView, log: Seq<Reply>, more: Seq<Reply>)
    ensures
        replays(|log: Seq<Reply>| work::wait_run(state, log), log, more),
{
    lemma_log();
    if log.len() > 0 && log[0] is Change {
        lemma_turn(state, log[0]->Change_0, log.skip(1), more);
    } else if log.len() == 0 && more.len() > 0 && more[0] is Change {
        lemma_turn(state, more[0]->Change_0, more.skip(1), Seq::empty());
    }
}

pub(crate) proof fn lemma_stop(push_deadline: Option<u128>, log: Seq<Reply>, more: Seq<Reply>)
    ensures
        replays(|log: Seq<Reply>| work::stop_run(push_deadline, log), log, more),
{
    lemma_work_status("Stopping. Unclaiming session..."@, push_deadline, log, more);
}

pub(crate) proof fn lemma_watch(state: WorkStateView, log: Seq<Reply>, more: Seq<Reply>)
    ensures
        replays(|log: Seq<Reply>| work::watch_run(state, log), log, more),
{
    lemma_log();
    if log.len() > 0 {
        lemma_wait(state, log.skip(1), more);
        lemma_stop(state.push_deadline, log.skip(1), more);
    } else if more.len() > 0 {
        lemma_wait(state, more.skip(1), Seq::empty());
        lemma_stop(state.push_deadline, more.skip(1), Seq::empty());
    }
}

pub(crate) proof fn lemma_set_up_watch(log: Seq<Reply>, more: Seq<Reply>)
    ensures
        replays(|log: Seq<Reply>| work::set_up_watch_run(log), log, more),
{
    lemma_log();
}

pub(crate) proof fn lemma_start_watching(log: Seq<Reply>, more: Seq<Reply>)
    ensures
        replays(|log: Seq<Reply>| work::start_watching_run(log), log, more),
{
    lemma_log();
    lemma_set_up_watch(log, more);
    if let Some((_, log, more)) = onward(|log: Seq<Reply>| work::set_up_watch_run(log), log, more) {
        lemma_shown(work::first_state(), log, more);
    }
}

pub(crate) proof fn lemma_work_loop(stage: LoopStageView, log: Seq<Reply>, more: Seq<Reply>)
    ensures
        replays(|log: Seq<Reply>| work::run_work_loop_run(stage, log), log, more),
{
    match stage {
        LoopStageView::Starting => lemma_start_watching(log, more),
        LoopStageView::Watching(state) => lemma_watch(state, log, more),
        LoopStageView::Finished => {},
    }
}

pub(crate) proof fn lemma_session_to_work_on(
    session_name: Option<Seq<char>>,
    log: Seq<Reply>,
    more: Seq<Reply>,
)
    ensures
        replays(|log: Seq<Reply>| work::session_to_work_on_run(session_name, log), log, more),
{
    match session_name {
        Some(name) => lemma_start(name, log, more),
        None => lemma_current_session(log, more),
    }
}

pub(crate) proof fn lemma_claim_to_work(session_name: Seq<char>, log: Seq<Reply>, more: Seq<Reply>)
    ensures
        replays(|log: Seq<Reply>| work::claim_to_work_run(session_name, log), log, more),
{
    lemma_log();
    lemma_synchronized(session::branch_of(session_name), log, more);
    if let Some((_, log, more)) = onward(
        |log: Seq<Reply>|
            sync::ensure_fully_synchronized_run(session::branch_of(session_name), log),
        log,
        more,
    ) {
        lemma_claim(log, more);
    }
}

pub(crate) proof fn lemma_begin_work(session_name: Option<Seq<char>>, log: Seq<Reply>, more: Seq<Reply>)
    ensures
        replays(|log: Seq<Reply>| work::begin_work_run(session_name, log), log, more),
{
    lemma_log();
    lemma_session_to_work_on(session_name, log, more);
    if let Some((value, log, more)) = onward(
        |log: Seq<Reply>| work::session_to_work_on_run(session_name, log),
        log,
        more,
    ) {
        lemma_claim_to_work(value, log, more);
    }
}

pub(crate) proof fn lemma_work(
    session_name: Option<Seq<char>>,
    stage: WorkStageView,
    log: Seq<Reply>,
    more: Seq<Reply>,
)
    ensures
        replays(|log: Seq<Reply>| work::work_session_run(session_name, stage, log), log, more),
{
    match stage {
        WorkStageView::Starting => lemma_begin_work(session_name, log, more),
        WorkStageView::Looping(stage) => lemma_work_loop(stage, log, more),
        WorkStageView::Leaving(_) => lemma_unclaim(log, more),
        WorkStageView::Finished => {},
    }
}

/// Every workflow behind a command can be run again from the start with one more reply. What
/// it made of the earlier replies stays, the new one is read once and in its turn, and a
/// workflow that came to its end stays there.
pub proof fn law_workflows_can_be_run_again(
    session_name: Seq<char>,
    session_to_work_on: Option<Seq<char>>,
    stage: WorkStageView,
    log: Seq<Reply>,
    more: Seq<Reply>,
)
    ensures
        replays(|log: Seq<Reply>| status::render_all_sessions_run(log), log, more),
        replays(|log: Seq<Reply>| status::render_status_run(log), log, more),
        replays(|log: Seq<Reply>| workflow::checkout_session_run(session_name, log), log, more),
        replays(|log: Seq<Reply>| workflow::delete_session_run(session_name, log), log, more),
        replays(|log: Seq<Reply>| workflow::start_jist_session_run(session_name, log), log, more),
        replays(|log: Seq<Reply>| workflow::claim_session_run(log), log, more),
        replays(|log: Seq<Reply>| workflow::push_session_run(log), log, more),
        replays(|log: Seq<Reply>| workflow::unclaim_session_run(log), log, more),
        replays(
            |log: Seq<Reply>| work::work_session_run(session_to_work_on, stage, log),
            log,
            more,
        ),
{
    lemma_all_sessions(log, more);
    lemma_status(log, more);
    lemma_checkout(session_name, log, more);
    lemma_delete(session_name, log, more);
    lemma_start(session_name, log, more);
    lemma_claim(log, more);
    lemma_push(log, more);
    lemma_unclaim(log, more);
    lemma_work(session_to_work_on, stage, log, more);
}

} // verus!
