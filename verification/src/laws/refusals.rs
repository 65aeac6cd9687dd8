//! When a workflow fails, and what the user is told.

use crate::claim;
use crate::claim::ClaimeeIdView;
use crate::command;
use crate::exchange::{ClockReading, CommandReply, Reply, RequestView, Run};
use crate::laws::beginnings;
use crate::laws::dialogue;
use crate::laws::dialogue::Turn;
use crate::laws::reading;
use crate::laws::starting;
use crate::laws::success;
use crate::laws::transcripts;
use crate::laws::watching;
use crate::repository;
use crate::session;
use crate::session::SessionInfoView;
use crate::sync;
use crate::text;
use crate::time;
use crate::work;
use crate::work::{LoopStageView, WorkStageView};
use crate::workflow;
use vstd::prelude::*;
use vstd::utf8;

verus! {

/// What a command that was to succeed leads to: it succeeded, or the user is told that it
/// could not be started or with which status it ended.
pub open spec fn is_status(
    run: Run<()>,
    reply: CommandReply,
    rest: Seq<Reply>,
    not_started: Seq<char>,
    failed: Seq<char>,
) -> bool {
    match reply {
        CommandReply::NotStarted(error) => run == Run::<()>::Failed(not_started + error@, rest),
        CommandReply::Finished(finished) => run == if finished.success {
            Run::Done((), rest)
        } else {
            Run::Failed(failed + finished.status@ + "."@, rest)
        },
    }
}

/// What a command whose output counts leads to: its output, apart from white space around
/// it, or what it printed on the error stream, or a text of its own where it printed nothing
/// there.
pub open spec fn is_output(
    run: Run<Seq<char>>,
    reply: CommandReply,
    rest: Seq<Reply>,
    not_started: Seq<char>,
    failed: Seq<char>,
) -> bool {
    match reply {
        CommandReply::NotStarted(error) => run == Run::<Seq<char>>::Failed(
            not_started + error@,
            rest,
        ),
        CommandReply::Finished(finished) => {
            let complaint = text::trimmed(command::lossy_text(finished.stderr@));
            if finished.success {
                if utf8::valid_utf8(finished.stdout@) {
                    run == Run::Done(
                        text::trimmed(utf8::decode_utf8(finished.stdout@)),
                        rest,
                    )
                } else {
                    run == Run::<Seq<char>>::Failed(
                        "Command returned non-UTF-8 output: "@ + command::utf8_error(
                            finished.stdout@,
                        ),
                        rest,
                    )
                }
            } else if complaint.len() > 0 {
                run == Run::<Seq<char>>::Failed(complaint, rest)
            } else {
                run == Run::<Seq<char>>::Failed(failed, rest)
            }
        },
    }
}

/// What a command leads to whose success is the question.
pub open spec fn is_answer(
    run: Run<bool>,
    reply: CommandReply,
    rest: Seq<Reply>,
    not_started: Seq<char>,
) -> bool {
    match reply {
        CommandReply::NotStarted(error) => run == Run::<bool>::Failed(not_started + error@, rest),
        CommandReply::Finished(finished) => run == Run::Done(finished.success, rest),
    }
}

/// Every kind of command asks for exactly that command, and its reply decides.
pub proof fn law_commands_follow_their_replies(
    args: Seq<Seq<char>>,
    reply: CommandReply,
    rest: Seq<Reply>,
)
    ensures
        command::git_status_run(args, Seq::empty()) == Run::<()>::Asks(dialogue::git(args)),
        command::git_success_run(args, Seq::empty()) == Run::<bool>::Asks(dialogue::git(args)),
        command::git_output_run(args, None, Seq::empty()) == Run::<Seq<char>>::Asks(
            dialogue::git_query(args),
        ),
        command::gh_status_run(args, Seq::empty()) == Run::<()>::Asks(dialogue::gh(args)),
        command::gh_success_run(args, Seq::empty()) == Run::<bool>::Asks(dialogue::gh(args)),
        command::gh_output_run(args, Seq::empty()) == Run::<Seq<char>>::Asks(
            dialogue::gh_query(args),
        ),
        ({
            let log = seq![Reply::Command(reply)] + rest;
            &&& is_status(
                command::git_status_run(args, log),
                reply,
                rest,
                "Failed to run git: "@,
                "Git command failed with status "@,
            )
            &&& is_status(
                command::gh_status_run(args, log),
                reply,
                rest,
                "Failed to run gh: "@,
                "GitHub CLI command failed with status "@,
            )
            &&& is_output(
                command::git_output_run(args, None, log),
                reply,
                rest,
                "Failed to run git: "@,
                "Git command failed."@,
            )
            &&& is_output(
                command::gh_output_run(args, log),
                reply,
                rest,
                "Failed to run gh: "@,
                "GitHub CLI command failed."@,
            )
            &&& is_answer(
                command::git_success_run(args, log),
                reply,
                rest,
                "Failed to run git: "@,
            )
            &&& is_answer(
                command::gh_success_run(args, log),
                reply,
                rest,
                "Failed to run gh: "@,
            )
        }),
{
    let log = seq![Reply::Command(reply)] + rest;
    assert(log.skip(1) =~= rest);
    assert(log[0] == Reply::Command(reply));
}

/// `gh` could not be started.
pub open spec fn is_gh_missing(d: Seq<Turn>) -> bool {
    &&& d.len() == 1
    &&& d[0].request == dialogue::gh_query(seq!["--version"@])
    &&& d[0].reply matches Reply::Command(CommandReply::NotStarted(_))
}

#[verifier::spinoff_prover]
proof fn lemma_gh_missing(d: Seq<Turn>)
    requires
        is_gh_missing(d),
    ensures
        dialogue::fails(
            |log: Seq<Reply>| command::ensure_gh_installed_run(log),
            d,
            "GitHub CLI (`gh`) is required for `jist session`."@,
        ),
{
    dialogue::lemma_words();
    dialogue::lemma_replies();
    dialogue::lemma_made(|log: Seq<Reply>| command::ensure_gh_installed_run(log), d);
}

/// Without `gh` nothing on the remote is touched: every workflow on it fails at once and says
/// so.
#[verifier::spinoff_prover]
pub proof fn law_gh_is_required(d: Seq<Turn>, session_name: Seq<char>)
    requires
        is_gh_missing(d),
    ensures
        ({
            let message = "GitHub CLI (`gh`) is required for `jist session`."@;
            &&& dialogue::fails(|log: Seq<Reply>| workflow::push_session_run(log), d, message)
            &&& dialogue::fails(|log: Seq<Reply>| workflow::claim_session_run(log), d, message)
            &&& dialogue::fails(|log: Seq<Reply>| workflow::unclaim_session_run(log), d, message)
            &&& dialogue::fails(
                |log: Seq<Reply>| workflow::start_jist_session_run(session_name, log),
                d,
                message,
            )
            &&& dialogue::fails(
                |log: Seq<Reply>| workflow::delete_session_run(session_name, log),
                d,
                message,
            )
            &&& dialogue::fails(|log: Seq<Reply>| session::list_sessions_run(log), d, message)
        }),
{
    lemma_gh_missing(d);
    lemma_gh_missing_entry(d);
    lemma_gh_missing_start(d, session_name);
    lemma_gh_missing_open(d, session_name);
}

#[verifier::spinoff_prover]
proof fn lemma_gh_missing_entry(d: Seq<Turn>)
    requires
        is_gh_missing(d),
    ensures
        ({
            let message = "GitHub CLI (`gh`) is required for `jist session`."@;
            &&& dialogue::fails(|log: Seq<Reply>| workflow::push_session_run(log), d, message)
            &&& dialogue::fails(|log: Seq<Reply>| workflow::claim_session_run(log), d, message)
            &&& dialogue::fails(|log: Seq<Reply>| workflow::unclaim_session_run(log), d, message)
        }),
{
    let message = "GitHub CLI (`gh`) is required for `jist session`."@;
    let check = |log: Seq<Reply>| command::ensure_gh_installed_run(log);
    lemma_gh_missing(d);
    let push = "Check out a JIST session branch before running `jist push`."@;
    dialogue::lemma_first_failure(
        |log: Seq<Reply>| workflow::enter_session_run(push, log),
        check,
        |_done: (), log: Seq<Reply>| workflow::enter_installed_run(push, log),
        d,
        message,
    );
    lemma_push_refused(d, message);
    let claimed = "Check out a JIST session branch before running `jist claim`."@;
    dialogue::lemma_first_failure(
        |log: Seq<Reply>| workflow::enter_session_run(claimed, log),
        check,
        |_done: (), log: Seq<Reply>| workflow::enter_installed_run(claimed, log),
        d,
        message,
    );
    lemma_claim_refused(d, message);
    let unclaimed = "Check out a JIST session branch before running `jist unclaim`."@;
    dialogue::lemma_first_failure(
        |log: Seq<Reply>| workflow::enter_session_run(unclaimed, log),
        check,
        |_done: (), log: Seq<Reply>| workflow::enter_installed_run(unclaimed, log),
        d,
        message,
    );
    lemma_unclaim_refused(d, message);
}

#[verifier::spinoff_prover]
proof fn lemma_push_refused(d: Seq<Turn>, message: Seq<char>)
    requires
        dialogue::fails(
            |log: Seq<Reply>|
                workflow::enter_session_run(
                    "Check out a JIST session branch before running `jist push`."@,
                    log,
                ),
            d,
            message,
        ),
    ensures
        dialogue::fails(|log: Seq<Reply>| workflow::push_session_run(log), d, message),
{
    dialogue::lemma_first_failure(
        |log: Seq<Reply>| workflow::push_session_run(log),
        |log: Seq<Reply>|
            workflow::enter_session_run(
                "Check out a JIST session branch before running `jist push`."@,
                log,
            ),
        |entered: (Seq<char>, Seq<char>), log: Seq<Reply>|
            workflow::push_entered_run(entered.0, entered.1, log),
        d,
        message,
    );
}

#[verifier::spinoff_prover]
proof fn lemma_claim_refused(d: Seq<Turn>, message: Seq<char>)
    requires
        dialogue::fails(
            |log: Seq<Reply>|
                workflow::enter_session_run(
                    "Check out a JIST session branch before running `jist claim`."@,
                    log,
                ),
            d,
            message,
        ),
    ensures
        dialogue::fails(|log: Seq<Reply>| workflow::claim_session_run(log), d, message),
{
    dialogue::lemma_first_failure(
        |log: Seq<Reply>| workflow::claim_session_run(log),
        |log: Seq<Reply>|
            workflow::enter_session_run(
                "Check out a JIST session branch before running `jist claim`."@,
                log,
            ),
        |entered: (Seq<char>, Seq<char>), log: Seq<Reply>|
            workflow::claim_entered_run(entered.0, entered.1, log),
        d,
        message,
    );
}

#[verifier::spinoff_prover]
proof fn lemma_unclaim_refused(d: Seq<Turn>, message: Seq<char>)
    requires
        dialogue::fails(
            |log: Seq<Reply>|
                workflow::enter_session_run(
                    "Check out a JIST session branch before running `jist unclaim`."@,
                    log,
                ),
            d,
            message,
        ),
    ensures
        dialogue::fails(|log: Seq<Reply>| workflow::unclaim_session_run(log), d, message),
{
    dialogue::lemma_first_failure(
        |log: Seq<Reply>| workflow::unclaim_session_run(log),
        |log: Seq<Reply>|
            workflow::enter_session_run(
                "Check out a JIST session branch before running `jist unclaim`."@,
                log,
            ),
        |entered: (Seq<char>, Seq<char>), log: Seq<Reply>|
            workflow::unclaim_entered_run(entered.0, entered.1, log),
        d,
        message,
    );
}

#[verifier::spinoff_prover]
proof fn lemma_gh_missing_start(d: Seq<Turn>, session_name: Seq<char>)
    requires
        is_gh_missing(d),
    ensures
        dialogue::fails(
            |log: Seq<Reply>| workflow::start_jist_session_run(session_name, log),
            d,
            "GitHub CLI (`gh`) is required for `jist session`."@,
        ),
{
    let message = "GitHub CLI (`gh`) is required for `jist session`."@;
    lemma_gh_missing(d);
    dialogue::lemma_first_failure(
        |log: Seq<Reply>| workflow::prepare_remote_run(log),
        |log: Seq<Reply>| command::ensure_gh_installed_run(log),
        |_done: (), log: Seq<Reply>| workflow::name_and_prepare_run(log),
        d,
        message,
    );
    dialogue::lemma_first_failure(
        |log: Seq<Reply>| workflow::start_jist_session_run(session_name, log),
        |log: Seq<Reply>| workflow::prepare_remote_run(log),
        |_done: (), log: Seq<Reply>| workflow::start_prepared_run(session_name, log),
        d,
        message,
    );
}

#[verifier::spinoff_prover]
proof fn lemma_gh_missing_open(d: Seq<Turn>, session_name: Seq<char>)
    requires
        is_gh_missing(d),
    ensures
        dialogue::fails(
            |log: Seq<Reply>| workflow::delete_session_run(session_name, log),
            d,
            "GitHub CLI (`gh`) is required for `jist session`."@,
        ),
        dialogue::fails(
            |log: Seq<Reply>| session::list_sessions_run(log),
            d,
            "GitHub CLI (`gh`) is required for `jist session`."@,
        ),
{
    let message = "GitHub CLI (`gh`) is required for `jist session`."@;
    lemma_gh_missing(d);
    let open = |log: Seq<Reply>| repository::open_remote_run(log);
    dialogue::lemma_first_failure(
        open,
        |log: Seq<Reply>| command::ensure_gh_installed_run(log),
        |_done: (), log: Seq<Reply>| repository::reach_remote_run(log),
        d,
        message,
    );
    dialogue::lemma_first_failure(
        |log: Seq<Reply>| workflow::delete_session_run(session_name, log),
        open,
        |_done: (), log: Seq<Reply>| workflow::delete_opened_run(session_name, log),
        d,
        message,
    );
    dialogue::lemma_first_failure(
        |log: Seq<Reply>| session::list_sessions_run(log),
        open,
        |_done: (), log: Seq<Reply>| session::listed_sessions_run(log),
        d,
        message,
    );
}

/// `gh` was started, and the branch that is checked out belongs to no session.
pub open spec fn is_off_sessions(d: Seq<Turn>) -> bool {
    &&& d.len() == 2
    &&& transcripts::is_gh_check(d[0])
    &&& dialogue::answered(d[1], dialogue::git_query(seq!["branch"@, "--show-current"@]))
    &&& forall|name: Seq<char>|
        name.len() > 0 ==> dialogue::output_of(d[1].reply) != #[trigger] ("jist-"@ + name)
}

#[verifier::spinoff_prover]
proof fn lemma_off_sessions(d: Seq<Turn>, refusal: Seq<char>)
    requires
        is_off_sessions(d),
    ensures
        dialogue::fails(
            |log: Seq<Reply>| workflow::enter_session_run(refusal, log),
            d,
            refusal,
        ),
{
    let branch = dialogue::output_of(d[1].reply);
    assert(session::session_of_branch(branch) is None) by {
        let n = "jist-"@.len() as int;
        if let Some(name) = session::session_of_branch(branch) {
            assert(branch =~= "jist-"@ + name);
        }
    }
    dialogue::lemma_words();
    dialogue::lemma_replies();
    dialogue::lemma_made(|log: Seq<Reply>| workflow::enter_session_run(refusal, log), d);
}

/// A session is pushed, claimed and given back only on its branch: on any other the user is
/// told to check one out, and nothing else is asked for.
#[verifier::spinoff_prover]
pub proof fn law_session_branch_is_required(d: Seq<Turn>)
    requires
        is_off_sessions(d),
    ensures
        dialogue::fails(
            |log: Seq<Reply>| workflow::push_session_run(log),
            d,
            "Check out a JIST session branch before running `jist push`."@,
        ),
        dialogue::fails(
            |log: Seq<Reply>| workflow::claim_session_run(log),
            d,
            "Check out a JIST session branch before running `jist claim`."@,
        ),
        dialogue::fails(
            |log: Seq<Reply>| workflow::unclaim_session_run(log),
            d,
            "Check out a JIST session branch before running `jist unclaim`."@,
        ),
{
    let push = "Check out a JIST session branch before running `jist push`."@;
    lemma_off_sessions(d, push);
    lemma_push_refused(d, push);
    let claimed = "Check out a JIST session branch before running `jist claim`."@;
    lemma_off_sessions(d, claimed);
    lemma_claim_refused(d, claimed);
    let unclaimed = "Check out a JIST session branch before running `jist unclaim`."@;
    lemma_off_sessions(d, unclaimed);
    lemma_unclaim_refused(d, unclaimed);
}

/// The claim on a session is another's or missing, and `message` says so.
pub open spec fn is_not_own(
    d: Seq<Turn>,
    branch: Seq<char>,
    message: Seq<char>,
    n: int,
    current: ClaimeeIdView,
    again: ClaimeeIdView,
) -> bool {
    &&& d.len() >= 1
    &&& transcripts::is_metadata(d[0], branch)
    &&& match claim::claim_in(dialogue::output_of(d[0].reply)) {
        Ok(Some(claim)) => {
            &&& is_another(d.skip(1), claim.claimee_id, message, n, current, again)
            &&& current != claim.claimee_id
        },
        Ok(None) => d.len() == 1 && message == "This JIST session has not been claimed yet."@,
        Err(error) => d.len() == 1 && message == error,
    }
}

/// The user of this machine was found to be `current`, and once more `again`; `message`
/// names whose claim it is.
pub open spec fn is_another(
    d: Seq<Turn>,
    id: ClaimeeIdView,
    message: Seq<char>,
    n: int,
    current: ClaimeeIdView,
    again: ClaimeeIdView,
) -> bool {
    &&& 2 <= n
    &&& n + 2 <= d.len()
    &&& transcripts::is_setup(d.take(n), current)
    &&& transcripts::is_setup(d.skip(n), again)
    &&& message == "This JIST session is claimed by `"@ + (id.user + "@"@ + id.machine)
        + "`, not `"@ + (again.user + "@"@ + again.machine) + "`."@
}

#[verifier::spinoff_prover]
proof fn lemma_refused(d: Seq<Turn>, id: ClaimeeIdView, again: ClaimeeIdView)
    requires
        d.len() >= 2,
        transcripts::is_setup(d, again),
    ensures
        dialogue::fails(
            |log: Seq<Reply>| claim::refused_run(id, log),
            d,
            claim::wrong_owner_text(id, Some(again)),
        ),
{
    success::lemma_setup(d, again);
    let current = |log: Seq<Reply>| claim::current_run(log);
    let whole = |log: Seq<Reply>| claim::refused_run(id, log);
    let message = claim::wrong_owner_text(id, Some(again));
    assert forall|n: int| 0 <= n < d.len() implies whole(
        #[trigger] dialogue::replies(d).take(n),
    ) == Run::<()>::Asks(d[n].request) by {
        assert(current(dialogue::replies(d).take(n)) == Run::<ClaimeeIdView>::Asks(
            d[n].request,
        ));
    }
    assert forall|rest: Seq<Reply>| whole(#[trigger] (dialogue::replies(d) + rest)) == Run::<
        (),
    >::Failed(message, rest) by {
        assert(current(dialogue::replies(d) + rest) == Run::Done(again, rest));
    }
}

#[verifier::spinoff_prover]
proof fn lemma_compared(d: Seq<Turn>, id: ClaimeeIdView, current: ClaimeeIdView)
    requires
        d.len() >= 2,
        transcripts::is_setup(d, current),
    ensures
        dialogue::succeeds(
            |log: Seq<Reply>| claim::is_current_setup_run(id, log),
            d,
            id == current,
        ),
{
    success::lemma_setup(d, current);
    success::lemma_then_done(
        |log: Seq<Reply>| claim::is_current_setup_run(id, log),
        |log: Seq<Reply>| claim::current_run(log),
        |current: ClaimeeIdView, log: Seq<Reply>| Run::Done(id == current, log),
        d,
        current,
        id == current,
    );
}

#[verifier::spinoff_prover]
proof fn lemma_another(
    d: Seq<Turn>,
    id: ClaimeeIdView,
    message: Seq<char>,
    n: int,
    current: ClaimeeIdView,
    again: ClaimeeIdView,
)
    requires
        is_another(d, id, message, n, current, again),
        current != id,
    ensures
        dialogue::fails(|log: Seq<Reply>| claim::allowed_run(id, log), d, message),
        dialogue::fails(|log: Seq<Reply>| claim::taken_run(id, log), d, message),
{
    lemma_compared(d.take(n), id, current);
    lemma_refused(d.skip(n), id, again);
    let compared = |log: Seq<Reply>| claim::is_current_setup_run(id, log);
    let refused = |log: Seq<Reply>| claim::refused_run(id, log);
    let allow = |mine: bool, log: Seq<Reply>|
        if mine {
            Run::Done((), log)
        } else {
            claim::refused_run(id, log)
        };
    let take = |mine: bool, log: Seq<Reply>|
        if mine {
            Run::Failed(
                "This JIST session is already claimed by this machine and user."@,
                log,
            )
        } else {
            claim::refused_run(id, log)
        };
    lemma_same_failure(refused, |log: Seq<Reply>| allow(false, log), d.skip(n), message);
    lemma_same_failure(refused, |log: Seq<Reply>| take(false, log), d.skip(n), message);
    dialogue::lemma_join_failure(
        |log: Seq<Reply>| claim::allowed_run(id, log),
        compared,
        allow,
        d,
        n,
        false,
        message,
    );
    dialogue::lemma_join_failure(
        |log: Seq<Reply>| claim::taken_run(id, log),
        compared,
        take,
        d,
        n,
        false,
        message,
    );
}

/// Two workflows that do the same fail in the same way.
proof fn lemma_same_failure<A>(
    a: spec_fn(Seq<Reply>) -> Run<A>,
    b: spec_fn(Seq<Reply>) -> Run<A>,
    d: Seq<Turn>,
    message: Seq<char>,
)
    requires
        dialogue::fails(a, d, message),
        forall|log: Seq<Reply>| #[trigger] a(log) == b(log),
    ensures
        dialogue::fails(b, d, message),
{
    assert forall|rest: Seq<Reply>| b(#[trigger] (dialogue::replies(d) + rest)) == Run::<
        A,
    >::Failed(message, rest) by {
        assert(a(dialogue::replies(d) + rest) == Run::<A>::Failed(message, rest));
    }
    assert forall|n: int| 0 <= n < d.len() implies b(
        #[trigger] dialogue::replies(d).take(n),
    ) == Run::<A>::Asks(d[n].request) by {
        assert(a(dialogue::replies(d).take(n)) == Run::<A>::Asks(d[n].request));
    }
}

#[verifier::spinoff_prover]
proof fn lemma_bad_metadata(d: Seq<Turn>, branch: Seq<char>, error: Seq<char>)
    requires
        d.len() == 1,
        transcripts::is_metadata(d[0], branch),
        claim::claim_in(dialogue::output_of(d[0].reply)) matches Err(own) && own == error,
    ensures
        dialogue::fails(
            |log: Seq<Reply>| claim::remote_claim_owner_run(branch, log),
            d,
            error,
        ),
{
    transcripts::lemma_remote_ref(branch);
    dialogue::lemma_words();
    dialogue::lemma_replies();
    dialogue::lemma_made(|log: Seq<Reply>| claim::remote_claim_owner_run(branch, log), d);
}

#[verifier::spinoff_prover]
proof fn lemma_not_own(
    d: Seq<Turn>,
    branch: Seq<char>,
    message: Seq<char>,
    n: int,
    current: ClaimeeIdView,
    again: ClaimeeIdView,
)
    requires
        is_not_own(d, branch, message, n, current, again),
    ensures
        dialogue::fails(
            |log: Seq<Reply>| claim::ensure_claimed_by_this_machine_run(branch, log),
            d,
            message,
        ),
{
    let whole = |log: Seq<Reply>| claim::ensure_claimed_by_this_machine_run(branch, log);
    let owner = |log: Seq<Reply>| claim::remote_claim_owner_run(branch, log);
    let next = |owner: Option<ClaimeeIdView>, log: Seq<Reply>|
        match owner {
            Some(id) => claim::allowed_run(id, log),
            None => Run::Failed("This JIST session has not been claimed yet."@, log),
        };
    let tail = d.skip(1);
    assert(d.take(1)[0] == d[0]);
    match claim::claim_in(dialogue::output_of(d[0].reply)) {
        Ok(Some(claim)) => {
            let id = claim.claimee_id;
            success::lemma_owner(d.take(1), branch, Some(id));
            lemma_another(tail, id, message, n, current, again);
            lemma_same_failure(
                |log: Seq<Reply>| claim::allowed_run(id, log),
                |log: Seq<Reply>| next(Some(id), log),
                tail,
                message,
            );
            dialogue::lemma_join_failure(whole, owner, next, d, 1, Some(id), message);
        },
        Ok(None) => {
            success::lemma_owner(d.take(1), branch, None);
            let then = |log: Seq<Reply>| next(None, log);
            assert(dialogue::fails(then, tail, message)) by {
                dialogue::lemma_replies();
            }
            dialogue::lemma_join_failure(whole, owner, next, d, 1, None, message);
        },
        Err(error) => {
            assert(d.take(1) =~= d);
            lemma_bad_metadata(d, branch, error);
            dialogue::lemma_first_failure(whole, owner, next, d, message);
        },
    }
}

/// A session that the user of this machine does not claim is neither pushed nor given back:
/// the user is told whose claim it is, or that there is none.
#[verifier::spinoff_prover]
pub proof fn law_own_claim_is_required(
    d: Seq<Turn>,
    name: Seq<char>,
    k: int,
    message: Seq<char>,
    n: int,
    current: ClaimeeIdView,
    again: ClaimeeIdView,
)
    requires
        name.len() > 0,
        0 <= k <= d.len(),
        transcripts::is_entry(d.take(k), "jist-"@ + name),
        is_not_own(d.skip(k), "jist-"@ + name, message, n, current, again),
    ensures
        dialogue::fails(|log: Seq<Reply>| workflow::push_session_run(log), d, message),
        dialogue::fails(|log: Seq<Reply>| workflow::unclaim_session_run(log), d, message),
{
    let branch = "jist-"@ + name;
    let tail = d.skip(k);
    lemma_not_own(tail, branch, message, n, current, again);
    lemma_push_barred(d, name, k, message);
    lemma_unclaim_barred(d, name, k, message);
}

#[verifier::spinoff_prover]
proof fn lemma_push_barred(d: Seq<Turn>, name: Seq<char>, k: int, message: Seq<char>)
    requires
        name.len() > 0,
        0 <= k <= d.len(),
        transcripts::is_entry(d.take(k), "jist-"@ + name),
        dialogue::fails(
            |log: Seq<Reply>| claim::ensure_claimed_by_this_machine_run("jist-"@ + name, log),
            d.skip(k),
            message,
        ),
    ensures
        dialogue::fails(|log: Seq<Reply>| workflow::push_session_run(log), d, message),
{
    let branch = "jist-"@ + name;
    let refusal = "Check out a JIST session branch before running `jist push`."@;
    success::lemma_entry(d.take(k), refusal, branch, name);
    dialogue::lemma_first_failure(
        |log: Seq<Reply>| workflow::push_entered_run(branch, name, log),
        |log: Seq<Reply>| claim::ensure_claimed_by_this_machine_run(branch, log),
        |_done: (), log: Seq<Reply>|
            workflow::push_changes_run(branch, log).and_then(
                |_done: (), log: Seq<Reply>| Run::Done(name, log),
            ),
        d.skip(k),
        message,
    );
    dialogue::lemma_join_failure(
        |log: Seq<Reply>| workflow::push_session_run(log),
        |log: Seq<Reply>| workflow::enter_session_run(refusal, log),
        |entered: (Seq<char>, Seq<char>), log: Seq<Reply>|
            workflow::push_entered_run(entered.0, entered.1, log),
        d,
        k,
        (branch, name),
        message,
    );
}

#[verifier::spinoff_prover]
proof fn lemma_unclaim_barred(d: Seq<Turn>, name: Seq<char>, k: int, message: Seq<char>)
    requires
        name.len() > 0,
        0 <= k <= d.len(),
        transcripts::is_entry(d.take(k), "jist-"@ + name),
        dialogue::fails(
            |log: Seq<Reply>| claim::ensure_claimed_by_this_machine_run("jist-"@ + name, log),
            d.skip(k),
            message,
        ),
    ensures
        dialogue::fails(|log: Seq<Reply>| workflow::unclaim_session_run(log), d, message),
{
    let branch = "jist-"@ + name;
    let refusal = "Check out a JIST session branch before running `jist unclaim`."@;
    success::lemma_entry(d.take(k), refusal, branch, name);
    dialogue::lemma_first_failure(
        |log: Seq<Reply>| workflow::unclaim_entered_run(branch, name, log),
        |log: Seq<Reply>| claim::ensure_claimed_by_this_machine_run(branch, log),
        |_done: (), log: Seq<Reply>|
            workflow::record_metadata_run(branch, "initialized=true\n"@, log).and_then(
                |_done: (), log: Seq<Reply>| Run::Done(name, log),
            ),
        d.skip(k),
        message,
    );
    dialogue::lemma_join_failure(
        |log: Seq<Reply>| workflow::unclaim_session_run(log),
        |log: Seq<Reply>| workflow::enter_session_run(refusal, log),
        |entered: (Seq<char>, Seq<char>), log: Seq<Reply>|
            workflow::unclaim_entered_run(entered.0, entered.1, log),
        d,
        k,
        (branch, name),
        message,
    );
}

/// Files differ from the remote branch, and `message` says how many.
pub open spec fn is_unsynchronized(d: Seq<Turn>, branch: Seq<char>, message: Seq<char>) -> bool {
    let unsynced = sync::sync_status_of(
        dialogue::output_of(d[0].reply),
        dialogue::output_of(d[1].reply),
        dialogue::output_of(d[2].reply),
    ).unsynced_files;
    &&& d.len() == 3
    &&& dialogue::answered(
        d[0],
        dialogue::git_query(
            seq!["diff"@, "--name-only"@, "refs/remotes/jist/"@ + branch, "--"@],
        ),
    )
    &&& dialogue::answered(
        d[1],
        dialogue::git_query(seq!["ls-files"@, "--others"@, "--exclude-standard"@]),
    )
    &&& dialogue::answered(
        d[2],
        dialogue::git_query(
            seq!["ls-tree"@, "-r"@, "--name-only"@, "refs/remotes/jist/"@ + branch],
        ),
    )
    &&& unsynced > 0
    &&& message == "Cannot claim this JIST session while "@ + (text::decimal(unsynced) + " "@
        + if unsynced == 1 {
        "file"@
    } else {
        "files"@
    }) + " unsynchronized."@
}

#[verifier::spinoff_prover]
proof fn lemma_unsynchronized(d: Seq<Turn>, branch: Seq<char>, message: Seq<char>)
    requires
        is_unsynchronized(d, branch, message),
    ensures
        dialogue::fails(
            |log: Seq<Reply>| sync::ensure_fully_synchronized_run(branch, log),
            d,
            message,
        ),
{
    reveal_strlit("file");
    reveal_strlit("session");
    assert("file"@.len() != "session"@.len());
    transcripts::lemma_remote_ref(branch);
    dialogue::lemma_words();
    dialogue::lemma_replies();
    dialogue::lemma_made(
        |log: Seq<Reply>| sync::ensure_fully_synchronized_run(branch, log),
        d,
    );
}

/// A claim is on the session already, and `message` says whose it is.
pub open spec fn is_taken(
    d: Seq<Turn>,
    branch: Seq<char>,
    message: Seq<char>,
    n: int,
    current: ClaimeeIdView,
    again: ClaimeeIdView,
) -> bool {
    &&& d.len() >= 3
    &&& transcripts::is_metadata(d[0], branch)
    &&& claim::claim_in(dialogue::output_of(d[0].reply)) matches Ok(Some(claim)) && if current
        == claim.claimee_id {
        &&& transcripts::is_setup(d.skip(1), current)
        &&& message == "This JIST session is already claimed by this machine and user."@
    } else {
        is_another(d.skip(1), claim.claimee_id, message, n, current, again)
    }
}

#[verifier::spinoff_prover]
proof fn lemma_already_own(d: Seq<Turn>, id: ClaimeeIdView)
    requires
        d.len() >= 2,
        transcripts::is_setup(d, id),
    ensures
        dialogue::fails(
            |log: Seq<Reply>| claim::taken_run(id, log),
            d,
            "This JIST session is already claimed by this machine and user."@,
        ),
{
    let message = "This JIST session is already claimed by this machine and user."@;
    let k = d.len() as int;
    assert(d.take(k) =~= d);
    lemma_compared(d.take(k), id, id);
    let take = |mine: bool, log: Seq<Reply>|
        if mine {
            Run::Failed(message, log)
        } else {
            claim::refused_run(id, log)
        };
    let then = |log: Seq<Reply>| take(true, log);
    assert(dialogue::fails(then, d.skip(k), message)) by {
        dialogue::lemma_replies();
    }
    dialogue::lemma_join_failure(
        |log: Seq<Reply>| claim::taken_run(id, log),
        |log: Seq<Reply>| claim::is_current_setup_run(id, log),
        take,
        d,
        k,
        true,
        message,
    );
}

#[verifier::spinoff_prover]
proof fn lemma_taken(
    d: Seq<Turn>,
    branch: Seq<char>,
    message: Seq<char>,
    n: int,
    current: ClaimeeIdView,
    again: ClaimeeIdView,
)
    requires
        is_taken(d, branch, message, n, current, again),
    ensures
        dialogue::fails(
            |log: Seq<Reply>| claim::ensure_unclaimed_run(branch, log),
            d,
            message,
        ),
{
    let id = claim::claim_in(dialogue::output_of(d[0].reply))->Ok_0->Some_0.claimee_id;
    let tail = d.skip(1);
    assert(d.take(1)[0] == d[0]);
    success::lemma_owner(d.take(1), branch, Some(id));
    if current == id {
        lemma_already_own(tail, id);
    } else {
        lemma_another(tail, id, message, n, current, again);
    }
    let next = |owner: Option<ClaimeeIdView>, log: Seq<Reply>|
        match owner {
            Some(id) => claim::taken_run(id, log),
            None => Run::Done((), log),
        };
    lemma_same_failure(
        |log: Seq<Reply>| claim::taken_run(id, log),
        |log: Seq<Reply>| next(Some(id), log),
        tail,
        message,
    );
    dialogue::lemma_join_failure(
        |log: Seq<Reply>| claim::ensure_unclaimed_run(branch, log),
        |log: Seq<Reply>| claim::remote_claim_owner_run(branch, log),
        next,
        d,
        1,
        Some(id),
        message,
    );
}

/// A session is not claimed while files differ from its remote branch: the user is told how
/// many. Nor is it claimed where someone claims it already: the user is told who.
#[verifier::spinoff_prover]
pub proof fn law_claim_is_refused(
    d: Seq<Turn>,
    name: Seq<char>,
    k: int,
    message: Seq<char>,
    n: int,
    current: ClaimeeIdView,
    again: ClaimeeIdView,
)
    requires
        name.len() > 0,
        0 <= k <= d.len(),
        transcripts::is_entry(d.take(k), "jist-"@ + name),
        ({
            ||| is_unsynchronized(d.skip(k), "jist-"@ + name, message)
            ||| {
                &&& k + 3 <= d.len()
                &&& transcripts::is_synchronized(d.subrange(k, k + 3), "jist-"@ + name)
                &&& is_taken(d.skip(k + 3), "jist-"@ + name, message, n, current, again)
            }
        }),
    ensures
        dialogue::fails(|log: Seq<Reply>| workflow::claim_session_run(log), d, message),
{
    let branch = "jist-"@ + name;
    let refusal = "Check out a JIST session branch before running `jist claim`."@;
    let tail = d.skip(k);
    if !is_unsynchronized(tail, branch, message) {
        assert(tail.subrange(0, 3) =~= d.subrange(k, k + 3));
        assert(tail.skip(3) =~= d.skip(k + 3));
    }
    lemma_claim_entered_refused(tail, branch, name, message, n, current, again);
    success::lemma_entry(d.take(k), refusal, branch, name);
    dialogue::lemma_join_failure(
        |log: Seq<Reply>| workflow::claim_session_run(log),
        |log: Seq<Reply>| workflow::enter_session_run(refusal, log),
        |entered: (Seq<char>, Seq<char>), log: Seq<Reply>|
            workflow::claim_entered_run(entered.0, entered.1, log),
        d,
        k,
        (branch, name),
        message,
    );
}

#[verifier::spinoff_prover]
proof fn lemma_claim_entered_refused(
    d: Seq<Turn>,
    branch: Seq<char>,
    name: Seq<char>,
    message: Seq<char>,
    n: int,
    current: ClaimeeIdView,
    again: ClaimeeIdView,
)
    requires
        ({
            ||| is_unsynchronized(d, branch, message)
            ||| {
                &&& 3 <= d.len()
                &&& transcripts::is_synchronized(d.subrange(0, 3), branch)
                &&& is_taken(d.skip(3), branch, message, n, current, again)
            }
        }),
    ensures
        dialogue::fails(
            |log: Seq<Reply>| workflow::claim_entered_run(branch, name, log),
            d,
            message,
        ),
{
    let whole = |log: Seq<Reply>| workflow::claim_entered_run(branch, name, log);
    let first = |log: Seq<Reply>| sync::ensure_fully_synchronized_run(branch, log);
    let next = |_done: (), log: Seq<Reply>|
        workflow::claim_synchronized_run(branch, name, log);
    if is_unsynchronized(d, branch, message) {
        lemma_unsynchronized(d, branch, message);
        dialogue::lemma_first_failure(whole, first, next, d, message);
    } else {
        assert(d.take(3) =~= d.subrange(0, 3));
        success::lemma_synchronized(d.take(3), branch);
        lemma_taken(d.skip(3), branch, message, n, current, again);
        dialogue::lemma_first_failure(
            |log: Seq<Reply>| workflow::claim_synchronized_run(branch, name, log),
            |log: Seq<Reply>| claim::ensure_unclaimed_run(branch, log),
            |_done: (), log: Seq<Reply>| workflow::write_claim_run(branch, name, log),
            d.skip(3),
            message,
        );
        dialogue::lemma_join_failure(whole, first, next, d, 3, (), message);
    }
}

/// With changes in the working tree nothing is checked out.
#[verifier::spinoff_prover]
pub proof fn law_clean_worktree_is_required(d: Seq<Turn>, session_name: Seq<char>)
    requires
        d.len() == 1,
        dialogue::answered(d[0], dialogue::git_query(seq!["status"@, "--porcelain"@])),
        dialogue::output_of(d[0].reply).len() > 0,
    ensures
        dialogue::fails(
            |log: Seq<Reply>| workflow::checkout_session_run(session_name, log),
            d,
            "Cannot check out a JIST session with uncommitted working changes."@,
        ),
{
    dialogue::lemma_words();
    dialogue::lemma_replies();
    dialogue::lemma_made(
        |log: Seq<Reply>| workflow::checkout_session_run(session_name, log),
        d,
    );
}

/// The user was asked for a confirmation and gave another answer.
pub open spec fn is_cancelled(d: Seq<Turn>, session_name: Seq<char>) -> bool {
    &&& d.len() == 2
    &&& d[0].request == RequestView::Prompt(
        "Delete JIST session `"@ + session_name + "`? Type `confirm` to continue: "@,
    )
    &&& d[0].reply matches Reply::Outcome(Ok(_))
    &&& d[1].request == RequestView::ReadLine
    &&& d[1].reply matches Reply::Line(Ok(line)) && text::trimmed(line@) != "confirm"@
}

#[verifier::spinoff_prover]
proof fn lemma_cancelled(d: Seq<Turn>, session_name: Seq<char>, commit: Seq<char>)
    requires
        is_cancelled(d, session_name),
    ensures
        dialogue::fails(
            |log: Seq<Reply>| workflow::delete_found_run(session_name, Some(commit), log),
            d,
            "Delete cancelled."@,
        ),
{
    dialogue::lemma_replies();
    dialogue::lemma_made(
        |log: Seq<Reply>| workflow::delete_found_run(session_name, Some(commit), log),
        d,
    );
}

/// A session that is not on the remote cannot be deleted, and one that is stays unless the
/// user confirms it.
#[verifier::spinoff_prover]
pub proof fn law_delete_is_refused(d: Seq<Turn>, session_name: Seq<char>, k: int, message: Seq<char>)
    requires
        0 <= k < d.len(),
        starting::is_opened(d.take(k)),
        starting::is_lookup(d[k], "jist-"@ + session::escaped(session_name)),
        ({
            let listed = dialogue::output_of(d[k].reply);
            if listed.len() == 0 {
                &&& d.len() == k + 1
                &&& message == "JIST session `"@ + session_name + "` does not exist."@
            } else {
                &&& text::split_once(text::lines(listed)[0], '\t') is Some
                &&& is_cancelled(d.skip(k + 1), session_name)
                &&& message == "Delete cancelled."@
            }
        }),
    ensures
        dialogue::fails(
            |log: Seq<Reply>| workflow::delete_session_run(session_name, log),
            d,
            message,
        ),
{
    let branch = session::branch_of(session_name);
    let tail = d.skip(k);
    let end = tail.skip(1);
    let listed = dialogue::output_of(d[k].reply);
    let fields = text::split_once(text::lines(listed)[0], '\t')->Some_0;
    let found = if listed.len() == 0 {
        None
    } else {
        Some(fields.0)
    };
    assert(tail.take(1)[0] == d[k]);
    beginnings::lemma_lookup(tail.take(1), branch, found);
    let next = |commit: Option<Seq<char>>, log: Seq<Reply>|
        workflow::delete_found_run(session_name, commit, log);
    let then = |log: Seq<Reply>| next(found, log);
    if listed.len() == 0 {
        assert(dialogue::fails(then, end, message)) by {
            dialogue::lemma_replies();
        }
    } else {
        assert(end =~= d.skip(k + 1));
        lemma_cancelled(end, session_name, fields.0);
        lemma_same_failure(
            |log: Seq<Reply>|
                workflow::delete_found_run(session_name, Some(fields.0), log),
            then,
            end,
            message,
        );
    }
    dialogue::lemma_join_failure(
        |log: Seq<Reply>| workflow::delete_opened_run(session_name, log),
        |log: Seq<Reply>| session::remote_branch_commit_run(branch, log),
        next,
        tail,
        1,
        found,
        message,
    );
    beginnings::lemma_opened(d.take(k));
    dialogue::lemma_join_failure(
        |log: Seq<Reply>| workflow::delete_session_run(session_name, log),
        |log: Seq<Reply>| repository::open_remote_run(log),
        |_done: (), log: Seq<Reply>| workflow::delete_opened_run(session_name, log),
        d,
        k,
        (),
        message,
    );
}

#[verifier::spinoff_prover]
proof fn lemma_detached(d: Seq<Turn>, session_name: Seq<char>)
    requires
        d.len() == 1,
        dialogue::answered(d[0], dialogue::git_query(seq!["branch"@, "--show-current"@])),
        dialogue::output_of(d[0].reply).len() == 0,
    ensures
        dialogue::fails(
            |log: Seq<Reply>| workflow::start_prepared_run(session_name, log),
            d,
            "Cannot initialize JIST from a detached HEAD."@,
        ),
{
    dialogue::lemma_words();
    dialogue::lemma_replies();
    dialogue::lemma_made(
        |log: Seq<Reply>| workflow::start_prepared_run(session_name, log),
        d,
    );
}

/// No session is started where no branch is checked out.
#[verifier::spinoff_prover]
pub proof fn law_branch_is_required_to_start(d: Seq<Turn>, session_name: Seq<char>)
    requires
        d.len() >= 1,
        starting::is_prepared(d.drop_last()),
        dialogue::answered(d.last(), dialogue::git_query(seq!["branch"@, "--show-current"@])),
        dialogue::output_of(d.last().reply).len() == 0,
    ensures
        dialogue::fails(
            |log: Seq<Reply>| workflow::start_jist_session_run(session_name, log),
            d,
            "Cannot initialize JIST from a detached HEAD."@,
        ),
{
    let k = d.len() - 1;
    assert(d.take(k) =~= d.drop_last());
    assert(d.skip(k)[0] == d.last());
    beginnings::lemma_prepared(d.take(k));
    lemma_detached(d.skip(k), session_name);
    dialogue::lemma_join_failure(
        |log: Seq<Reply>| workflow::start_jist_session_run(session_name, log),
        |log: Seq<Reply>| workflow::prepare_remote_run(log),
        |_done: (), log: Seq<Reply>| workflow::start_prepared_run(session_name, log),
        d,
        k,
        (),
        "Cannot initialize JIST from a detached HEAD."@,
    );
}

/// Without a name and without a session that is checked out, there is nothing to work on.
#[verifier::spinoff_prover]
pub proof fn law_session_is_required_to_work(
    d: Seq<Turn>,
    listed: int,
    sessions: Seq<SessionInfoView>,
)
    requires
        0 <= listed <= d.len(),
        starting::is_listing(d.take(listed), sessions),
        watching::is_checked_out(d.skip(listed), sessions, None),
    ensures
        dialogue::fails(
            |log: Seq<Reply>| work::work_session_run(None, WorkStageView::Starting, log),
            d,
            "Check out a JIST session or pass a session name before running `jist work`."@,
        ),
{
    let message =
        "Check out a JIST session or pass a session name before running `jist work`."@;
    beginnings::law_listing_is_owed(d.take(listed), sessions);
    beginnings::lemma_checked_out(d.skip(listed), sessions, None);
    lemma_nobody_checked_out(d, listed, sessions);
    dialogue::lemma_first_failure(
        |log: Seq<Reply>| work::work_session_run(None, WorkStageView::Starting, log),
        |log: Seq<Reply>| work::session_to_work_on_run(None, log),
        |name: Seq<char>, log: Seq<Reply>| work::claim_to_work_run(name, log),
        d,
        message,
    );
}

#[verifier::spinoff_prover]
proof fn lemma_nobody_checked_out(d: Seq<Turn>, listed: int, sessions: Seq<SessionInfoView>)
    requires
        0 <= listed <= d.len(),
        dialogue::succeeds(
            |log: Seq<Reply>| session::list_sessions_run(log),
            d.take(listed),
            sessions,
        ),
        dialogue::succeeds(
            |log: Seq<Reply>| session::checked_out_among_run(sessions, log),
            d.skip(listed),
            None,
        ),
    ensures
        dialogue::fails(
            |log: Seq<Reply>| work::session_to_work_on_run(None, log),
            d,
            "Check out a JIST session or pass a session name before running `jist work`."@,
        ),
{
    let message =
        "Check out a JIST session or pass a session name before running `jist work`."@;
    let current = |log: Seq<Reply>| session::current_session_name_run(log);
    dialogue::lemma_join(
        current,
        |log: Seq<Reply>| session::list_sessions_run(log),
        |sessions: Seq<SessionInfoView>, log: Seq<Reply>|
            session::checked_out_among_run(sessions, log),
        d,
        listed,
        sessions,
        None,
    );
    let next = |name: Option<Seq<char>>, log: Seq<Reply>|
        match name {
            Some(name) => Run::Done(name, log),
            None => Run::Failed(message, log),
        };
    let k = d.len() as int;
    assert(d.take(k) =~= d);
    let then = |log: Seq<Reply>| next(None, log);
    assert(dialogue::fails(then, d.skip(k), message)) by {
        dialogue::lemma_replies();
    }
    dialogue::lemma_join_failure(
        |log: Seq<Reply>| work::session_to_work_on_run(None, log),
        current,
        next,
        d,
        k,
        None,
        message,
    );
}

/// Work on a session that was named does not begin while files differ from its remote
/// branch: the session was started, but nothing is claimed.
#[verifier::spinoff_prover]
pub proof fn law_work_is_refused_while_files_differ(
    d: Seq<Turn>,
    name: Seq<char>,
    found: int,
    commit: Seq<char>,
    k: int,
    message: Seq<char>,
)
    requires
        0 <= found <= d.len(),
        starting::is_start(d.take(found), name, commit, k),
        is_unsynchronized(d.skip(found), "jist-"@ + session::escaped(name), message),
    ensures
        dialogue::fails(
            |log: Seq<Reply>| work::work_session_run(Some(name), WorkStageView::Starting, log),
            d,
            message,
        ),
{
    beginnings::law_start_is_owed(d.take(found), name, commit, k);
    lemma_unsynchronized(d.skip(found), "jist-"@ + session::escaped(name), message);
    lemma_work_barred(d, name, found, commit, message);
}

#[verifier::spinoff_prover]
proof fn lemma_work_barred(
    d: Seq<Turn>,
    name: Seq<char>,
    found: int,
    commit: Seq<char>,
    message: Seq<char>,
)
    requires
        0 <= found <= d.len(),
        dialogue::succeeds(
            |log: Seq<Reply>| workflow::start_jist_session_run(name, log),
            d.take(found),
            commit,
        ),
        dialogue::fails(
            |log: Seq<Reply>|
                sync::ensure_fully_synchronized_run("jist-"@ + session::escaped(name), log),
            d.skip(found),
            message,
        ),
    ensures
        dialogue::fails(
            |log: Seq<Reply>| work::work_session_run(Some(name), WorkStageView::Starting, log),
            d,
            message,
        ),
{
    let branch = session::branch_of(name);
    success::lemma_then_done(
        |log: Seq<Reply>| work::session_to_work_on_run(Some(name), log),
        |log: Seq<Reply>| workflow::start_jist_session_run(name, log),
        |commit: Seq<char>, log: Seq<Reply>| Run::Done(name, log),
        d.take(found),
        commit,
        name,
    );
    dialogue::lemma_first_failure(
        |log: Seq<Reply>| work::claim_to_work_run(name, log),
        |log: Seq<Reply>| sync::ensure_fully_synchronized_run(branch, log),
        |_done: (), log: Seq<Reply>|
            workflow::claim_session_run(log).and_then(
                |claimed: Seq<char>, log: Seq<Reply>|
                    Run::Done(WorkStageView::Looping(LoopStageView::Starting), log),
            ),
        d.skip(found),
        message,
    );
    dialogue::lemma_join_failure(
        |log: Seq<Reply>| work::work_session_run(Some(name), WorkStageView::Starting, log),
        |log: Seq<Reply>| work::session_to_work_on_run(Some(name), log),
        |name: Seq<char>, log: Seq<Reply>| work::claim_to_work_run(name, log),
        d,
        found,
        name,
        message,
    );
}

/// Where the user of this machine cannot be found out, the user is told what is missing.
#[verifier::spinoff_prover]
pub proof fn law_unknown_user_is_told(user: Option<String>, reply: CommandReply, rest: Seq<Reply>)
    ensures
        claim::local_machine_user_run(
            seq![Reply::Variable(None), Reply::Variable(user)] + rest,
        ) == match user {
            Some(user) => Run::Done(user@, rest),
            None => Run::Failed("Could not determine local machine user."@, rest),
        },
        !dialogue::has_output(Reply::Command(reply)) ==> claim::machine_id_run(
            seq![Reply::Variable(None), Reply::Variable(None), Reply::Command(reply)] + rest,
        ) == Run::<Seq<char>>::Failed("Could not determine machine id."@, rest),
{
    let named = seq![Reply::Variable(None), Reply::Variable(user)] + rest;
    assert(named.skip(1).skip(1) =~= rest);
    assert(named.skip(1)[0] == Reply::Variable(user));
    let log = seq![Reply::Variable(None), Reply::Variable(None), Reply::Command(reply)] + rest;
    assert(log.skip(1).skip(1).skip(1) =~= rest);
    assert(log.skip(1)[0] == Reply::Variable(None));
    assert(log.skip(1).skip(1)[0] == Reply::Command(reply));
}

/// Whose claim it is, is told with the user of this machine, where they are known, and without
/// them where they are not.
pub proof fn law_wrong_owner_is_named(id: ClaimeeIdView, log: Seq<Reply>)
    ensures
        match claim::current_run(log) {
            Run::Done(current, rest) => claim::refused_run(id, log) == Run::<()>::Failed(
                "This JIST session is claimed by `"@ + (id.user + "@"@ + id.machine)
                    + "`, not `"@ + (current.user + "@"@ + current.machine) + "`."@,
                rest,
            ),
            Run::Failed(_, rest) => claim::refused_run(id, log) == Run::<()>::Failed(
                "This JIST session is claimed by `"@ + (id.user + "@"@ + id.machine) + "`."@,
                rest,
            ),
            Run::Asks(request) => claim::refused_run(id, log) == Run::<()>::Asks(request),
        },
{
}

/// What cannot be read or written ends a workflow with the reason.
#[verifier::spinoff_prover]
pub proof fn law_reasons_are_told(
    session_name: Seq<char>,
    branch: Seq<char>,
    metadata: Seq<char>,
    error: String,
    rest: Seq<Reply>,
)
    ensures
        workflow::require_delete_confirmation_run(
            session_name,
            seq![Reply::Outcome(Err(error))] + rest,
        ) == Run::<()>::Failed("Failed to write confirmation prompt: "@ + error@, rest),
        workflow::require_delete_confirmation_run(
            session_name,
            seq![Reply::Outcome(Ok(())), Reply::Line(Err(error))] + rest,
        ) == Run::<()>::Failed("Failed to read confirmation: "@ + error@, rest),
        workflow::record_metadata_run(
            branch,
            metadata,
            seq![Reply::Outcome(Err(error))] + rest,
        ) == Run::<()>::Failed("Failed to write .jist-meta: "@ + error@, rest),
        time::utc_unix_timestamp_run(
            seq![Reply::Clock(ClockReading::BeforeEpoch(error))] + rest,
        ) == Run::<u64>::Failed("System clock is before Unix epoch: "@ + error@, rest),
{
    let refused = seq![Reply::Outcome(Err(error))] + rest;
    assert(refused.skip(1) =~= rest);
    let unread = seq![Reply::Outcome(Ok(())), Reply::Line(Err(error))] + rest;
    assert(unread.skip(1).skip(1) =~= rest);
    assert(unread.skip(1)[0] == Reply::Line(Err(error)));
    let early = seq![Reply::Clock(ClockReading::BeforeEpoch(error))] + rest;
    assert(early.skip(1) =~= rest);
}

/// What cannot be taken apart is told: a repository without an owner, and a line on a branch
/// without a commit.
pub proof fn law_unreadable_answers_are_told(
    original: Seq<char>,
    session_name: Seq<char>,
    branch: Seq<char>,
    output: Seq<char>,
)
    ensures
        !original.contains('/') ==> repository::session_url(original, session_name) == Err::<
            Seq<char>,
            Seq<char>,
        >("Could not parse repository `"@ + original + "`."@),
        output.len() > 0 && !text::lines(output)[0].contains('\t') ==> session::listed_commit(
            branch,
            output,
        ) == Err::<Option<Seq<char>>, Seq<char>>(
            "Could not parse remote branch `"@ + branch + "`."@,
        ),
        session::listed_commit(branch, Seq::empty()) == Ok::<Option<Seq<char>>, Seq<char>>(None),
{
    reading::law_split_once_at_first(original, '/');
    if let Some((front, back)) = text::split_once(original, '/') {
        let i = front.len() as int;
        assert(original[i] == '/');
        assert(original.contains('/'));
    }
    let line = text::lines(output)[0];
    reading::law_split_once_at_first(line, '\t');
    if let Some((front, back)) = text::split_once(line, '\t') {
        let i = front.len() as int;
        assert(line[i] == '\t');
        assert(line.contains('\t'));
    }
}

} // verus!
