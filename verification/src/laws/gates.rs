//! What has to hold before a workflow changes anything, and which branch it changes then.

use crate::ask;
use crate::claim;
use crate::command;
use crate::exchange;
use crate::exchange::{Program, Reply, RequestView, Run};
use crate::repository;
use crate::session;
use crate::sync;
use crate::text;
use crate::time;
use crate::workflow;
use vstd::prelude::*;

verus! {

/// Whether a request runs git with `verb` as its first word.
pub open spec fn runs_git(request: RequestView, verb: Seq<char>) -> bool {
    request matches RequestView::Command(line) && line.program == Program::Git && line.args.len()
        > 0 && line.args[0] == verb
}

/// Whether a request changes the session: its metadata file, the index, the commit that is
/// checked out or a branch on the remote.
pub open spec fn changes_session(request: RequestView) -> bool {
    ||| request is WriteFile
    ||| runs_git(request, "add"@)
    ||| runs_git(request, "commit"@)
    ||| runs_git(request, "push"@)
}

/// Whether a run may have changed the session: it came to its result, or it asks for a change.
pub open spec fn may_change<A>(run: Run<A>) -> bool {
    run is Done || (run matches Run::Asks(request) && changes_session(request))
}

/// Whether a run asks for no change.
spec fn harmless<A>(run: Run<A>) -> bool {
    run matches Run::Asks(request) ==> !changes_session(request)
}

/// The words that begin a harmless git command are not those that begin a change.
proof fn lemma_verbs()
    ensures
        is_harmless_verb("branch"@),
        is_harmless_verb("remote"@),
        is_harmless_verb("fetch"@),
        is_harmless_verb("show"@),
        is_harmless_verb("diff"@),
        is_harmless_verb("ls-files"@),
        is_harmless_verb("ls-tree"@),
        is_harmless_verb("ls-remote"@),
        is_harmless_verb("show-ref"@),
        is_harmless_verb("checkout"@),
        is_harmless_verb("rev-parse"@),
        is_harmless_verb("read-tree"@),
        is_harmless_verb("hash-object"@),
        is_harmless_verb("update-index"@),
        is_harmless_verb("write-tree"@),
        is_harmless_verb("commit-tree"@),
{
    reveal_strlit("add");
    reveal_strlit("commit");
    reveal_strlit("push");
    reveal_strlit("branch");
    reveal_strlit("remote");
    reveal_strlit("fetch");
    reveal_strlit("show");
    reveal_strlit("diff");
    reveal_strlit("ls-files");
    reveal_strlit("ls-tree");
    reveal_strlit("ls-remote");
    reveal_strlit("show-ref");
    reveal_strlit("checkout");
    reveal_strlit("rev-parse");
    reveal_strlit("read-tree");
    reveal_strlit("hash-object");
    reveal_strlit("update-index");
    reveal_strlit("write-tree");
    reveal_strlit("commit-tree");
    assert("add"@[0] == 'a' && "commit"@[1] == 'o' && "push"@[0] == 'p');
    assert("commit-tree"@.len() == 11 && "commit"@.len() == 6);
    assert("branch"@[0] == 'b');
    assert("remote"@[0] == 'r');
    assert("show"@[0] == 's');
    assert("diff"@[0] == 'd');
}

spec fn is_harmless_verb(verb: Seq<char>) -> bool {
    verb != "add"@ && verb != "commit"@ && verb != "push"@
}

proof fn lemma_reach_remote_is_harmless(log: Seq<Reply>)
    ensures
        harmless(repository::reach_remote_run(log)),
{
    lemma_verbs();
}

proof fn lemma_current_is_harmless(log: Seq<Reply>)
    ensures
        harmless(claim::current_run(log)),
{
}

proof fn lemma_owner_is_harmless(jist_branch: Seq<char>, log: Seq<Reply>)
    ensures
        harmless(claim::remote_claim_owner_run(jist_branch, log)),
{
    lemma_verbs();
}

proof fn lemma_wrong_owner_is_harmless(id: claim::ClaimeeIdView, log: Seq<Reply>)
    ensures
        harmless(claim::wrong_owner_message_run(id, log)),
{
    lemma_current_is_harmless(log);
}

proof fn lemma_enter_is_harmless(refusal: Seq<char>, log: Seq<Reply>)
    ensures
        harmless(workflow::enter_session_run(refusal, log)),
{
    lemma_verbs();
    if let Run::Done(_, after_gh) = command::ensure_gh_installed_run(log) {
        if let Run::Done(branch, after_branch) = session::current_branch_run(after_gh) {
            lemma_reach_remote_is_harmless(after_branch);
        }
    }
}

proof fn lemma_claimed_gate_is_harmless(jist_branch: Seq<char>, log: Seq<Reply>)
    ensures
        harmless(claim::ensure_claimed_by_this_machine_run(jist_branch, log)),
{
    lemma_owner_is_harmless(jist_branch, log);
    if let Run::Done(Some(id), rest) = claim::remote_claim_owner_run(jist_branch, log) {
        lemma_current_is_harmless(rest);
        if let Run::Done(_, rest) = claim::is_current_setup_run(id, rest) {
            lemma_wrong_owner_is_harmless(id, rest);
        }
    }
}

proof fn lemma_unclaimed_gate_is_harmless(jist_branch: Seq<char>, log: Seq<Reply>)
    ensures
        harmless(claim::ensure_unclaimed_run(jist_branch, log)),
{
    lemma_owner_is_harmless(jist_branch, log);
    if let Run::Done(Some(id), rest) = claim::remote_claim_owner_run(jist_branch, log) {
        lemma_current_is_harmless(rest);
        if let Run::Done(_, rest) = claim::is_current_setup_run(id, rest) {
            lemma_wrong_owner_is_harmless(id, rest);
        }
    }
}

proof fn lemma_sync_is_harmless(jist_branch: Seq<char>, log: Seq<Reply>)
    ensures
        harmless(sync::ensure_fully_synchronized_run(jist_branch, log)),
{
    lemma_verbs();
}

/// Whether the log shows that the branch `branch` of a session is checked out here and that
/// the user of this machine claims it, up to `rest`.
pub open spec fn own_claim_shown(
    refusal: Seq<char>,
    log: Seq<Reply>,
    branch: Seq<char>,
    rest: Seq<Reply>,
) -> bool {
    match workflow::enter_session_run(refusal, log) {
        Run::Done((entered, _), log) => {
            &&& entered == branch
            &&& match claim::remote_claim_owner_run(branch, log) {
                Run::Done(Some(id), log) => claim::current_run(log) == Run::Done(id, rest),
                _ => false,
            }
        },
        _ => false,
    }
}

/// Nothing is pushed and nothing is changed by a push unless the user of this machine claims
/// the session that is checked out, and then its own branch is what is pushed.
pub proof fn law_push_needs_own_claim(log: Seq<Reply>)
    requires
        may_change(workflow::push_session_run(log)),
    ensures
        exists|branch: Seq<char>, rest: Seq<Reply>|
            {
                &&& #[trigger] own_claim_shown(
                    "Check out a JIST session branch before running `jist push`."@,
                    log,
                    branch,
                    rest,
                )
                &&& workflow::push_session_run(log) == workflow::push_changes_run(
                    branch,
                    rest,
                ).and_then(
                    |_done: (), log: Seq<Reply>|
                        Run::Done(session::session_of_branch(branch)->0, log),
                )
            },
{
    let refusal = "Check out a JIST session branch before running `jist push`."@;
    lemma_enter_is_harmless(refusal, log);
    let entered = workflow::enter_session_run(refusal, log);
    assert(entered is Done);
    let branch = entered->Done_0.0;
    let name = entered->Done_0.1;
    let after = entered->Done_1;
    lemma_claimed_gate_is_harmless(branch, after);
    let gate = claim::ensure_claimed_by_this_machine_run(branch, after);
    assert(workflow::push_session_run(log) == workflow::push_entered_run(branch, name, after));
    assert(gate is Done);
    let rest = gate->Done_1;
    let owner = claim::remote_claim_owner_run(branch, after);
    assert(owner is Done && owner->Done_0 is Some);
    let id = owner->Done_0->0;
    assert(claim::current_run(owner->Done_1) == Run::Done(id, rest));
    assert(session::session_of_branch(branch) == Some(name));
    assert(own_claim_shown(refusal, log, branch, rest));
}

/// A claim is given back only by the user of this machine, who holds it, and of the session
/// that is checked out.
pub proof fn law_unclaim_needs_own_claim(log: Seq<Reply>)
    requires
        may_change(workflow::unclaim_session_run(log)),
    ensures
        exists|branch: Seq<char>, rest: Seq<Reply>|
            {
                &&& #[trigger] own_claim_shown(
                    "Check out a JIST session branch before running `jist unclaim`."@,
                    log,
                    branch,
                    rest,
                )
                &&& workflow::unclaim_session_run(log) == workflow::record_metadata_run(
                    branch,
                    "initialized=true\n"@,
                    rest,
                ).and_then(
                    |_done: (), log: Seq<Reply>|
                        Run::Done(session::session_of_branch(branch)->0, log),
                )
            },
{
    let refusal = "Check out a JIST session branch before running `jist unclaim`."@;
    lemma_enter_is_harmless(refusal, log);
    let entered = workflow::enter_session_run(refusal, log);
    assert(entered is Done);
    let branch = entered->Done_0.0;
    let name = entered->Done_0.1;
    let after = entered->Done_1;
    lemma_claimed_gate_is_harmless(branch, after);
    let gate = claim::ensure_claimed_by_this_machine_run(branch, after);
    assert(workflow::unclaim_session_run(log) == workflow::unclaim_entered_run(
        branch,
        name,
        after,
    ));
    assert(gate is Done);
    let rest = gate->Done_1;
    let owner = claim::remote_claim_owner_run(branch, after);
    assert(owner is Done && owner->Done_0 is Some);
    let id = owner->Done_0->0;
    assert(claim::current_run(owner->Done_1) == Run::Done(id, rest));
    assert(session::session_of_branch(branch) == Some(name));
    assert(own_claim_shown(refusal, log, branch, rest));
}

/// Whether the log shows that the branch `branch` of a session is checked out here, that no
/// file differs from the remote branch and that nobody claims the session, up to `rest`.
pub open spec fn free_session_shown(log: Seq<Reply>, branch: Seq<char>, rest: Seq<Reply>) -> bool {
    match workflow::enter_session_run(
        "Check out a JIST session branch before running `jist claim`."@,
        log,
    ) {
        Run::Done((entered, _), log) => {
            &&& entered == branch
            &&& match sync::sync_status_for_branch_run(branch, log) {
                Run::Done(status, log) => {
                    &&& status.unsynced_files == 0
                    &&& claim::remote_claim_owner_run(branch, log) == Run::<
                        Option<claim::ClaimeeIdView>,
                    >::Done(None, rest)
                },
                _ => false,
            }
        },
        _ => false,
    }
}

/// A session is claimed only while no file differs from its remote branch and nobody claims
/// it, and what is recorded then is the claim of the user of this machine.
pub proof fn law_claim_needs_free_session(log: Seq<Reply>)
    requires
        may_change(workflow::claim_session_run(log)),
    ensures
        exists|branch: Seq<char>, rest: Seq<Reply>|
            {
                &&& #[trigger] free_session_shown(log, branch, rest)
                &&& workflow::claim_session_run(log) == workflow::write_claim_run(
                    branch,
                    session::session_of_branch(branch)->0,
                    rest,
                )
            },
{
    let refusal = "Check out a JIST session branch before running `jist claim`."@;
    lemma_enter_is_harmless(refusal, log);
    let entered = workflow::enter_session_run(refusal, log);
    assert(entered is Done);
    let branch = entered->Done_0.0;
    let name = entered->Done_0.1;
    let after = entered->Done_1;
    assert(workflow::claim_session_run(log) == workflow::claim_entered_run(branch, name, after));
    lemma_sync_is_harmless(branch, after);
    let synced = sync::ensure_fully_synchronized_run(branch, after);
    assert(synced is Done);
    let agreed = synced->Done_1;
    lemma_unclaimed_gate_is_harmless(branch, agreed);
    let gate = claim::ensure_unclaimed_run(branch, agreed);
    assert(gate is Done);
    let rest = gate->Done_1;
    let status = sync::sync_status_for_branch_run(branch, after);
    assert(status is Done && status->Done_0.unsynced_files == 0 && status->Done_1 == agreed);
    assert(session::session_of_branch(branch) == Some(name));
    assert(free_session_shown(log, branch, rest));
}

/// What a claim writes is the claim of the user of this machine: their name and that of the
/// machine, the git user's name and email, and the time on the clock.
pub proof fn law_claim_records_own_claim(log: Seq<Reply>)
    requires
        workflow::claim_session_run(log) is Asks,
        workflow::claim_session_run(log)->Asks_0 is WriteFile,
    ensures
        exists|branch: Seq<char>, rest: Seq<Reply>|
            {
                &&& #[trigger] free_session_shown(log, branch, rest)
                &&& match claim::current_run(rest) {
                    Run::Done(id, _) => exists|
                        git_user_name: Seq<char>,
                        git_user_email: Seq<char>,
                        claimed_at: u64,
                    |
                        workflow::claim_session_run(log)->Asks_0 == RequestView::WriteFile(
                            ".jist-meta"@,
                            #[trigger] claim::claim_metadata_text(
                                id,
                                git_user_name,
                                git_user_email,
                                claimed_at,
                            ),
                        ),
                    _ => false,
                }
            },
{
    law_claim_needs_free_session(log);
    let (branch, rest) = choose|branch: Seq<char>, rest: Seq<Reply>|
        {
            &&& #[trigger] free_session_shown(log, branch, rest)
            &&& workflow::claim_session_run(log) == workflow::write_claim_run(
                branch,
                session::session_of_branch(branch)->0,
                rest,
            )
        };
    let metadata = claim::claim_metadata_run(rest);
    assert(metadata is Done);
    let current = claim::current_run(rest);
    assert(current is Done);
    let name = command::git_output_run(
        exchange::argv("config"@).push("user.name"@),
        None,
        current->Done_1,
    );
    let email = command::git_output_run(
        exchange::argv("config"@).push("user.email"@),
        None,
        name->Done_1,
    );
    let claimed_at = time::utc_unix_timestamp_run(email->Done_1);
    assert(metadata->Done_0 == claim::claim_metadata_text(
        current->Done_0,
        name->Done_0,
        email->Done_0,
        claimed_at->Done_0,
    ));
}

/// Nothing is fetched or checked out while the working tree holds changes.
pub proof fn law_checkout_needs_clean_worktree(session_name: Seq<char>, log: Seq<Reply>)
    requires
        workflow::checkout_session_run(session_name, log) is Done || (
        workflow::checkout_session_run(session_name, log) matches Run::Asks(request) && (runs_git(
            request,
            "checkout"@,
        ) || runs_git(request, "fetch"@))),
    ensures
        command::git_output_run(
            exchange::argv("status"@).push("--porcelain"@),
            None,
            log,
        ) matches Run::Done(status, rest) && status.len() == 0 && workflow::checkout_session_run(
            session_name,
            log,
        ) == workflow::checkout_jist_branch_run(session::branch_of(session_name), rest),
{
    reveal_strlit("status");
    reveal_strlit("checkout");
    reveal_strlit("fetch");
    assert("status"@.len() != "checkout"@.len());
    assert("status"@.len() != "fetch"@.len());
    let status = command::git_output_run(
        exchange::argv("status"@).push("--porcelain"@),
        None,
        log,
    );
    assert(status is Done);
}

/// Whether the log shows that the branch of the session is on the remote and that the user
/// answered the question with `confirm`, up to `rest`.
pub open spec fn is_confirmed(session_name: Seq<char>, log: Seq<Reply>, rest: Seq<Reply>) -> bool {
    let found = repository::open_remote_run(log).and_then(
        |_done: (), log: Seq<Reply>|
            session::remote_branch_commit_run(session::branch_of(session_name), log),
    );
    match found {
        Run::Done(Some(_), log) => match ask::action_run(
            RequestView::Prompt(workflow::delete_prompt(session_name)),
            "Failed to write confirmation prompt: "@,
            log,
        ) {
            Run::Done(_, log) => match ask::read_line_run("Failed to read confirmation: "@, log) {
                Run::Done(response, log) => text::trimmed(response) == "confirm"@ && log == rest,
                _ => false,
            },
            _ => false,
        },
        _ => false,
    }
}

/// A session is deleted only if it is on the remote and the user typed `confirm`, and it is
/// its branch that is deleted.
pub proof fn law_delete_needs_confirmation(session_name: Seq<char>, log: Seq<Reply>)
    requires
        may_change(workflow::delete_session_run(session_name, log)),
    ensures
        exists|rest: Seq<Reply>|
            {
                &&& #[trigger] is_confirmed(session_name, log, rest)
                &&& workflow::delete_session_run(session_name, log) == command::git_status_run(
                    workflow::delete_push(session::branch_of(session_name)),
                    rest,
                ).and_then(|_done: (), log: Seq<Reply>| session::fetch_jist_sessions_run(log))
            },
{
    lemma_verbs();
    let installed = command::ensure_gh_installed_run(log);
    assert(installed is Done);
    lemma_reach_remote_is_harmless(installed->Done_1);
    let reached = repository::reach_remote_run(installed->Done_1);
    assert(reached is Done);
    let commit = session::remote_branch_commit_run(
        session::branch_of(session_name),
        reached->Done_1,
    );
    assert(commit is Done);
    let found = commit->Done_1;
    assert(commit->Done_0 is Some);
    let prompt = ask::action_run(
        RequestView::Prompt(workflow::delete_prompt(session_name)),
        "Failed to write confirmation prompt: "@,
        found,
    );
    assert(prompt is Done);
    let line = ask::read_line_run("Failed to read confirmation: "@, prompt->Done_1);
    assert(line is Done);
    assert(text::trimmed(line->Done_0) == "confirm"@);
    let rest = line->Done_1;
    assert(is_confirmed(session_name, log, rest));
}

/// Whether the log shows that a branch is checked out here and that the session is not on the
/// remote, up to `rest`.
pub open spec fn missing_session_shown(
    session_name: Seq<char>,
    log: Seq<Reply>,
    rest: Seq<Reply>,
) -> bool {
    let current_branch = workflow::prepare_remote_run(log).and_then(
        |_done: (), log: Seq<Reply>| session::current_branch_run(log),
    );
    match current_branch {
        Run::Done(branch, log) => branch.len() > 0 && session::remote_branch_commit_run(
            session::branch_of(session_name),
            log,
        ) == Run::<Option<Seq<char>>>::Done(None, rest),
        _ => false,
    }
}

proof fn lemma_create_is_harmless(session_name: Seq<char>, log: Seq<Reply>)
    ensures
        harmless(workflow::create_jist_meta_commit_run(session_name, log)),
{
    lemma_verbs();
    if let Run::Done(index, log) = workflow::index_file_run(log) {
        assert(harmless(workflow::commit_metadata_run(session_name, index.0, index.2, log)));
    }
}

/// A start pushes nothing but the first commit of a session that is not on the remote yet,
/// and not by force.
pub proof fn law_start_replaces_nothing(session_name: Seq<char>, log: Seq<Reply>)
    requires
        workflow::start_jist_session_run(session_name, log) matches Run::Asks(request)
            && changes_session(request),
    ensures
        exists|commit: Seq<char>, rest: Seq<Reply>|
            {
                &&& #[trigger] missing_session_shown(session_name, log, rest)
                &&& workflow::create_jist_meta_commit_run(session_name, rest) matches Run::Done(
                    made,
                    _,
                ) && made == commit
                &&& workflow::start_jist_session_run(session_name, log) == Run::<Seq<char>>::Asks(
                    RequestView::Command(
                        #[trigger] command::plain(
                            Program::Git,
                            workflow::first_push(commit, session::branch_of(session_name)),
                        ),
                    ),
                )
            },
{
    lemma_verbs();
    let jist_branch = session::branch_of(session_name);
    let prepared = workflow::prepare_remote_run(log);
    assert(harmless(prepared));
    assert(prepared is Done);
    let branch = session::current_branch_run(prepared->Done_1);
    assert(harmless(branch));
    assert(branch is Done);
    let found = session::remote_branch_commit_run(jist_branch, branch->Done_1);
    assert(harmless(found));
    assert(found is Done);
    let rest = found->Done_1;
    assert forall|log: Seq<Reply>| harmless(
        #[trigger] workflow::checkout_jist_branch_run(jist_branch, log),
    ) by {}
    assert(found->Done_0 is None);
    lemma_create_is_harmless(session_name, rest);
    let made = workflow::create_jist_meta_commit_run(session_name, rest);
    assert(made is Done);
    assert(missing_session_shown(session_name, log, rest));
}

/// The index file of a first commit is removed again, whether the commit could be made or
/// not: a run that came to its end has asked for the removal last.
pub proof fn law_index_file_is_removed(session_name: Seq<char>, log: Seq<Reply>)
    requires
        session::head_run(log) is Done,
        !(workflow::create_jist_meta_commit_run(session_name, log) is Asks),
    ensures
        exists|process: u32, before: Seq<Reply>|
            {
                let removal = #[trigger] ask::attempt_run(
                    RequestView::RemoveTempFile(workflow::index_name(process)),
                    before,
                );
                match workflow::create_jist_meta_commit_run(session_name, log) {
                    Run::Done(_, rest) => removal == Run::Done((), rest),
                    Run::Failed(_, rest) => removal == Run::Done((), rest),
                    Run::Asks(_) => false,
                }
            },
{
    let index = workflow::index_file_run(log);
    assert(index is Done);
    let name = workflow::index_name(index->Done_0.1);
    let made = workflow::commit_metadata_run(
        session_name,
        index->Done_0.0,
        index->Done_0.2,
        index->Done_1,
    );
    let whole = workflow::create_jist_meta_commit_run(session_name, log);
    assert(whole == workflow::cleaned_up_run(made, name));
    match made {
        Run::Done(commit, before) => {
            let removal = ask::attempt_run(RequestView::RemoveTempFile(name), before);
            assert(removal is Done);
        },
        Run::Failed(message, before) => {
            let removal = ask::attempt_run(RequestView::RemoveTempFile(name), before);
            assert(removal is Done);
        },
        Run::Asks(_) => {},
    }
}

} // verus!
