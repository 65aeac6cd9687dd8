//! How the work on a session begins and ends, word for word.

use crate::claim::ClaimeeIdView;
use crate::exchange::{Reply, Run};
use crate::laws::dialogue;
use crate::laws::dialogue::Turn;
use crate::laws::replay;
use crate::laws::starting;
use crate::laws::transcripts;
use crate::session;
use crate::session::SessionInfoView;
use crate::sync;
use crate::work;
use crate::work::{LoopStageView, WorkStageView};
use crate::workflow;
use vstd::prelude::*;

verus! {

/// Whether `name` is the session that is checked out, among these: the first one whose commit
/// is `head`, or where there is none, the one whose branch git names next.
#[verifier::opaque]
pub open spec fn is_checked_out(
    d: Seq<Turn>,
    sessions: Seq<SessionInfoView>,
    name: Option<Seq<char>>,
) -> bool {
    let head = dialogue::output_of(d[0].reply);
    let branch = dialogue::output_of(d[1].reply);
    &&& d.len() >= 1
    &&& dialogue::answered(d[0], dialogue::git_query(seq!["rev-parse"@, "HEAD"@]))
    &&& if exists|i: int| is_first_at(sessions, head, i) {
        d.len() == 1 && exists|i: int|
            #[trigger] is_first_at(sessions, head, i) && name == Some(sessions[i].name)
    } else {
        &&& d.len() == 2
        &&& dialogue::answered(d[1], dialogue::git_query(seq!["branch"@, "--show-current"@]))
        &&& match name {
            Some(name) => name.len() > 0 && branch == "jist-"@ + name,
            None => forall|name: Seq<char>| name.len() > 0 ==> branch != "jist-"@ + name,
        }
    }
}

/// Whether the session at `i` is the first one whose commit is `head`.
pub open spec fn is_first_at(sessions: Seq<SessionInfoView>, head: Seq<char>, i: int) -> bool {
    &&& 0 <= i < sessions.len()
    &&& sessions[i].working_commit == head
    &&& forall|j: int| 0 <= j < i ==> (#[trigger] sessions[j]).working_commit != head
}

pub(crate) proof fn lemma_first_at(sessions: Seq<SessionInfoView>, head: Seq<char>)
    ensures
        match session::session_at(sessions, head) {
            Some(found) => exists|i: int|
                #[trigger] is_first_at(sessions, head, i) && sessions[i] == found,
            None => forall|i: int| !#[trigger] is_first_at(sessions, head, i),
        },
    decreases sessions.len(),
{
    if sessions.len() == 0 {
    } else if sessions[0].working_commit == head {
        assert(is_first_at(sessions, head, 0));
    } else {
        let rest = sessions.skip(1);
        lemma_first_at(rest, head);
        match session::session_at(sessions, head) {
            Some(found) => {
                let i = choose|i: int|
                    #[trigger] is_first_at(rest, head, i) && rest[i] == found;
                assert forall|j: int| 0 <= j < i + 1 implies (
                #[trigger] sessions[j]).working_commit != head by {
                    if j > 0 {
                        assert(rest[j - 1].working_commit != head);
                    }
                }
                assert(is_first_at(sessions, head, i + 1));
            },
            None => {
                assert forall|i: int| !#[trigger] is_first_at(sessions, head, i) by {
                    if is_first_at(sessions, head, i) {
                        assert forall|j: int| 0 <= j < i - 1 implies (
                        #[trigger] rest[j]).working_commit != head by {
                            assert(sessions[j + 1].working_commit != head);
                        }
                        assert(is_first_at(rest, head, i - 1));
                    }
                }
            },
        }
    }
}

pub(crate) proof fn lemma_branch_name(branch: Seq<char>)
    ensures
        match session::session_of_branch(branch) {
            Some(name) => name.len() > 0 && branch == "jist-"@ + name,
            None => forall|name: Seq<char>| name.len() > 0 ==> branch != "jist-"@ + name,
        },
{
    let n = "jist-"@.len() as int;
    match session::session_of_branch(branch) {
        Some(name) => {
            assert(branch =~= branch.take(n) + branch.skip(n));
        },
        None => {
            assert forall|name: Seq<char>| name.len() > 0 implies branch != "jist-"@ + name by {
                if branch == "jist-"@ + name {
                    assert(branch.take(n) =~= "jist-"@);
                    assert(branch.skip(n) =~= name);
                }
            }
        },
    }
}

pub(crate) proof fn lemma_checked_out(
    d: Seq<Turn>,
    sessions: Seq<SessionInfoView>,
    name: Option<Seq<char>>,
)
    requires
        dialogue::succeeds(
            |log: Seq<Reply>| session::checked_out_among_run(sessions, log),
            d,
            name,
        ),
    ensures
        is_checked_out(d, sessions, name),
{
    reveal(is_checked_out);
    dialogue::lemma_words();
    dialogue::lemma_replies();
    transcripts::lemma_steps(
        |log: Seq<Reply>| session::checked_out_among_run(sessions, log),
        d,
        name,
    );
    lemma_first_at(sessions, dialogue::output_of(d[0].reply));
    lemma_branch_name(dialogue::output_of(d[1].reply));
}

/// Whenever the current session is named, the sessions were listed and it is the one whose
/// commit is checked out, or else the one whose branch is.
pub proof fn law_current_session_transcript(d: Seq<Turn>, name: Option<Seq<char>>) -> (at: (
    int,
    Seq<SessionInfoView>,
))
    requires
        dialogue::succeeds(|log: Seq<Reply>| session::current_session_name_run(log), d, name),
    ensures
        0 <= at.0 <= d.len(),
        starting::is_listing(d.take(at.0), at.1),
        is_checked_out(d.skip(at.0), at.1, name),
{
    let first = |log: Seq<Reply>| session::list_sessions_run(log);
    assert forall|log: Seq<Reply>, more: Seq<Reply>| #[trigger]
        replay::replays(first, log, more) by {
        replay::lemma_list_sessions(log, more);
    }
    let cut = dialogue::lemma_split(
        |log: Seq<Reply>| session::current_session_name_run(log),
        first,
        |sessions: Seq<SessionInfoView>, log: Seq<Reply>|
            session::checked_out_among_run(sessions, log),
        d,
        name,
    );
    starting::law_list_sessions_transcript(d.take(cut.0), cut.1);
    lemma_checked_out(d.skip(cut.0), cut.1, name);
    cut
}

/// What work on a session took to begin: where the name was given, the session of that name
/// was started, else it is the one that is checked out; then git named no file that differs
/// from its remote branch; and then a session was claimed.
pub struct Beginning {
    /// The end of what it took to find or start the session.
    pub found: int,
    /// The session to work on.
    pub name: Seq<char>,
    /// Where a name was given: the commit of that session, and where its start passes from
    /// the remote to the session.
    pub commit: Seq<char>,
    pub prepared: int,
    /// Where no name was given: the sessions, and the end of what it took to list them.
    pub sessions: Seq<SessionInfoView>,
    pub listed: int,
    /// The session that was claimed, for whom, and the parts of that.
    pub claimed: Seq<char>,
    pub id: ClaimeeIdView,
    pub entered: int,
    pub written: int,
}

/// Work on a session has begun, in these parts.
pub open spec fn is_beginning(
    session_name: Option<Seq<char>>,
    d: Seq<Turn>,
    b: Beginning,
) -> bool {
    &&& 0 <= b.found
    &&& b.found + 3 <= d.len()
    &&& match session_name {
        Some(name) => name == b.name && starting::is_start(
            d.take(b.found),
            name,
            b.commit,
            b.prepared,
        ),
        None => 0 <= b.listed <= b.found && starting::is_listing(d.take(b.listed), b.sessions)
            && is_checked_out(d.subrange(b.listed, b.found), b.sessions, Some(b.name)),
    }
    &&& transcripts::is_synchronized(
        d.subrange(b.found, b.found + 3),
        "jist-"@ + session::escaped(b.name),
    )
    &&& transcripts::is_claim(d.skip(b.found + 3), b.claimed, b.entered, b.written, b.id)
}

/// Whenever the watch of a session begins, the session that was named was started: looked up
/// on the private remote, and created there if it was missing, before anything was fetched or
/// checked out. Without a name it is the session that is checked out. No file differed from
/// its remote branch, and the claim of the user of this machine was recorded.
#[verifier::spinoff_prover]
pub proof fn law_work_begins_with_start_and_claim(
    session_name: Option<Seq<char>>,
    d: Seq<Turn>,
    stage: WorkStageView,
) -> (b: Beginning)
    requires
        dialogue::succeeds(
            |log: Seq<Reply>|
                work::work_session_run(session_name, WorkStageView::Starting, log),
            d,
            stage,
        ),
    ensures
        stage == WorkStageView::Looping(LoopStageView::Starting),
        is_beginning(session_name, d, b),
{
    let first = |log: Seq<Reply>| work::session_to_work_on_run(session_name, log);
    assert forall|log: Seq<Reply>, more: Seq<Reply>| #[trigger]
        replay::replays(first, log, more) by {
        replay::lemma_session_to_work_on(session_name, log, more);
    }
    let cut = dialogue::lemma_split(
        |log: Seq<Reply>| work::work_session_run(session_name, WorkStageView::Starting, log),
        first,
        |name: Seq<char>, log: Seq<Reply>| work::claim_to_work_run(name, log),
        d,
        stage,
    );
    let found = cut.0;
    let name = cut.1;
    let tail = d.skip(found);
    let branch = session::branch_of(name);
    let second = |log: Seq<Reply>| sync::ensure_fully_synchronized_run(branch, log);
    assert forall|log: Seq<Reply>, more: Seq<Reply>| #[trigger]
        replay::replays(second, log, more) by {
        replay::lemma_synchronized(branch, log, more);
    }
    let last = |claimed: Seq<char>, log: Seq<Reply>|
        Run::Done(WorkStageView::Looping(LoopStageView::Starting), log);
    let next = |_done: (), log: Seq<Reply>| workflow::claim_session_run(log).and_then(last);
    let cut = dialogue::lemma_split(
        |log: Seq<Reply>| work::claim_to_work_run(name, log),
        second,
        next,
        tail,
        stage,
    );
    transcripts::lemma_synchronized(tail.take(cut.0), branch);
    assert(tail.take(3) =~= d.subrange(found, found + 3));
    let end = tail.skip(3);
    assert(end =~= d.skip(found + 3));
    let third = |log: Seq<Reply>| workflow::claim_session_run(log);
    assert forall|log: Seq<Reply>, more: Seq<Reply>| #[trigger]
        replay::replays(third, log, more) by {
        replay::lemma_claim(log, more);
    }
    let claimed = dialogue::lemma_mapped(
        |log: Seq<Reply>| next((), log),
        third,
        last,
        end,
        stage,
    );
    let (entered, written, id) = transcripts::law_claim_transcript(end, claimed);
    let front = d.take(found);
    let (commit, prepared, sessions, listed) = lemma_session_found(session_name, front, name);
    assert(front.take(listed) =~= d.take(listed));
    assert(front.skip(listed) =~= d.subrange(listed, found));
    Beginning {
        found,
        name,
        commit,
        prepared,
        sessions,
        listed,
        claimed,
        id,
        entered,
        written,
    }
}

proof fn lemma_session_found(
    session_name: Option<Seq<char>>,
    d: Seq<Turn>,
    name: Seq<char>,
) -> (at: (Seq<char>, int, Seq<SessionInfoView>, int))
    requires
        dialogue::succeeds(
            |log: Seq<Reply>| work::session_to_work_on_run(session_name, log),
            d,
            name,
        ),
    ensures
        0 <= at.3 <= d.len(),
        match session_name {
            Some(given) => given == name && starting::is_start(d, given, at.0, at.1),
            None => starting::is_listing(d.take(at.3), at.2) && is_checked_out(
                d.skip(at.3),
                at.2,
                Some(name),
            ),
        },
{
    let whole = |log: Seq<Reply>| work::session_to_work_on_run(session_name, log);
    match session_name {
        Some(given) => {
            let first = |log: Seq<Reply>| workflow::start_jist_session_run(given, log);
            assert forall|log: Seq<Reply>, more: Seq<Reply>| #[trigger]
                replay::replays(first, log, more) by {
                replay::lemma_start(given, log, more);
            }
            let commit = dialogue::lemma_mapped(
                whole,
                first,
                |commit: Seq<char>, log: Seq<Reply>| Run::Done(given, log),
                d,
                name,
            );
            let k = starting::law_start_transcript(given, d, commit);
            (commit, k, Seq::empty(), 0)
        },
        None => {
            let first = |log: Seq<Reply>| session::current_session_name_run(log);
            assert forall|log: Seq<Reply>, more: Seq<Reply>| #[trigger]
                replay::replays(first, log, more) by {
                replay::lemma_current_session(log, more);
            }
            let next = |name: Option<Seq<char>>, log: Seq<Reply>|
                match name {
                    Some(name) => Run::Done(name, log),
                    None => Run::Failed(
                        "Check out a JIST session or pass a session name before running `jist work`."@,
                        log,
                    ),
                };
            let current = dialogue::lemma_mapped(whole, first, next, d, name);
            let (listed, sessions) = law_current_session_transcript(d, current);
            (Seq::empty(), 0, sessions, listed)
        },
    }
}

/// At its end the work on a session gives the claim back, whatever became of the watch, and
/// reports what went wrong with either.
pub proof fn law_leaving_gives_the_claim_back(
    session_name: Option<Seq<char>>,
    failure: Option<Seq<char>>,
    log: Seq<Reply>,
)
    ensures
        ({
            let left = work::work_session_run(session_name, WorkStageView::Leaving(failure), log);
            match (failure, workflow::unclaim_session_run(log)) {
                (_, Run::Asks(request)) => left == Run::<WorkStageView>::Asks(request),
                (None, Run::Done(_, rest)) => left == Run::Done(WorkStageView::Finished, rest),
                (Some(error), Run::Done(_, rest)) => left == Run::<WorkStageView>::Failed(
                    error,
                    rest,
                ),
                (None, Run::Failed(error, rest)) => left == Run::<WorkStageView>::Failed(
                    "Failed to unclaim JIST session: "@ + error,
                    rest,
                ),
                (Some(error), Run::Failed(unclaim_error, rest)) => left == Run::<
                    WorkStageView,
                >::Failed(
                    error + "\nFailed to unclaim JIST session: "@ + unclaim_error,
                    rest,
                ),
            }
        }),
{
}

/// Whenever work on a session ends well, the watch had not failed, and the claim of the user
/// of this machine on the session that is checked out was given back.
pub proof fn law_work_ends_with_recorded_unclaim(
    session_name: Option<Seq<char>>,
    failure: Option<Seq<char>>,
    d: Seq<Turn>,
    stage: WorkStageView,
) -> (at: (Seq<char>, int, int))
    requires
        dialogue::succeeds(
            |log: Seq<Reply>|
                work::work_session_run(session_name, WorkStageView::Leaving(failure), log),
            d,
            stage,
        ),
    ensures
        failure is None,
        stage == WorkStageView::Finished,
        transcripts::is_unclaim(d, at.0, at.1, at.2),
{
    let whole = |log: Seq<Reply>|
        work::work_session_run(session_name, WorkStageView::Leaving(failure), log);
    dialogue::lemma_replies();
    assert(whole(dialogue::replies(d) + Seq::empty()) is Done);
    let first = |log: Seq<Reply>| workflow::unclaim_session_run(log);
    let name = first(dialogue::replies(d))->Done_0;
    assert forall|n: int| 0 <= n < d.len() implies first(
        #[trigger] dialogue::replies(d).take(n),
    ) == Run::<Seq<char>>::Asks(d[n].request) by {
        assert(whole(dialogue::replies(d).take(n)) == Run::<WorkStageView>::Asks(d[n].request));
    }
    assert(first(dialogue::replies(d)) == Run::Done(name, Seq::<Reply>::empty()));
    assert forall|rest: Seq<Reply>|
        first(#[trigger] (dialogue::replies(d) + rest)) == Run::Done(name, rest) by {
        replay::lemma_unclaim(dialogue::replies(d), rest);
        assert(Seq::<Reply>::empty() + rest =~= rest);
    }
    let (k, e) = transcripts::law_unclaim_transcript(d, name);
    (name, k, e)
}

} // verus!
