//! The work on a session: when changes are pushed, and that the claim is given back.

use crate::ask;
use crate::exchange::{Change, Reply, Run};
use crate::session;
use crate::sync;
use crate::work;
use crate::work::{LoopStageView, WorkStageView, WorkStateView};
use crate::workflow;
use vstd::prelude::*;

verus! {

/// The work goes over to the watch only once the session was claimed, and no file differed
/// from its remote branch before.
pub proof fn law_work_begins_with_claim(
    session_name: Option<Seq<char>>,
    log: Seq<Reply>,
    stage: WorkStageView,
    rest: Seq<Reply>,
)
    requires
        work::work_session_run(session_name, WorkStageView::Starting, log) == Run::Done(
            stage,
            rest,
        ),
    ensures
        stage == WorkStageView::Looping(LoopStageView::Starting),
        work::session_to_work_on_run(session_name, log) matches Run::Done(name, named)
            && sync::ensure_fully_synchronized_run(
            session::branch_of(name),
            named,
        ) matches Run::Done(_, agreed) && workflow::claim_session_run(agreed) matches Run::Done(
            _,
            claimed,
        ) && claimed == rest,
{
}

/// However the watch goes, even if it fails, the work does not end with it: the claim is
/// still to be given back.
pub proof fn law_watch_leads_to_unclaim(
    session_name: Option<Seq<char>>,
    stage: LoopStageView,
    log: Seq<Reply>,
)
    ensures
        !(work::work_session_run(session_name, WorkStageView::Looping(stage), log) is Failed),
        work::work_session_run(
            session_name,
            WorkStageView::Looping(stage),
            log,
        ) matches Run::Done(next, _) ==> next is Looping || next is Leaving,
        work::run_work_loop_run(stage, log) matches Run::Failed(message, rest)
            ==> work::work_session_run(session_name, WorkStageView::Looping(stage), log)
            == Run::Done(WorkStageView::Leaving(Some(message)), rest),
{
}

/// Work that was begun ends only after an attempt to give the claim back, which comes to its
/// own end. It succeeds exactly where the watch did not fail and the claim was given back,
/// and a failure of the watch is reported in any case.
pub proof fn law_work_ends_with_unclaim(
    session_name: Option<Seq<char>>,
    stage: WorkStageView,
    log: Seq<Reply>,
)
    requires
        !(stage is Starting),
        !(stage is Finished),
        work::work_session_run(session_name, stage, log) is Failed || (work::work_session_run(
            session_name,
            stage,
            log,
        ) matches Run::Done(next, _) && next is Finished),
    ensures
        stage is Leaving,
        !(workflow::unclaim_session_run(log) is Asks),
        work::work_session_run(session_name, stage, log) is Done <==> stage->Leaving_0 is None
            && workflow::unclaim_session_run(log) is Done,
        stage->Leaving_0 matches Some(failure) ==> (work::work_session_run(
            session_name,
            stage,
            log,
        ) matches Run::Failed(message, _) && message.take(failure.len() as int) == failure),
{
    if let WorkStageView::Looping(inner) = stage {
        law_watch_leads_to_unclaim(session_name, inner, log);
    }
    if let WorkStageView::Leaving(Some(failure)) = stage {
        if let Run::Failed(message, _) = work::work_session_run(session_name, stage, log) {
            assert(message.take(failure.len() as int) =~= failure);
        }
    }
}

/// A change outside the git directories plans the next push for the end of a quiet period
/// that starts anew; what was planned before does not matter.
pub proof fn law_change_starts_quiet_period(
    state: WorkStateView,
    change: Change,
    now: u64,
    log: Seq<Reply>,
    next: WorkStateView,
    rest: Seq<Reply>,
)
    requires
        change matches Change::Paths(paths) && work::touches_files(paths.deep_view()),
        work::after_change_run(state, change, seq![Reply::Monotonic(now)] + log) == Run::Done(
            next,
            rest,
        ),
    ensures
        next.push_deadline == Some(work::quiet_after(now)),
        work::quiet_after(now) == now + 300_000_000_000,
{
    let whole = seq![Reply::Monotonic(now)] + log;
    assert(whole[0] == Reply::Monotonic(now));
    assert(whole.skip(1) =~= log);
}

/// Changes in git directories alone are passed over.
pub proof fn law_git_changes_are_passed_over(state: WorkStateView, change: Change, log: Seq<Reply>)
    requires
        change matches Change::Paths(paths) && forall|i: int|
            0 <= i < paths.deep_view().len() ==> work::is_git_internal(
                #[trigger] paths.deep_view()[i],
            ),
    ensures
        work::after_change_run(state, change, log) == Run::Done(state, log),
{
}

/// Nothing is pushed where nothing is planned, nor before the planned time.
pub proof fn law_no_push_before_its_time(state: WorkStateView, log: Seq<Reply>)
    requires
        state.push_deadline matches Some(deadline) ==> (ask::monotonic_run(log) matches Run::Done(
            now,
            _,
        ) && now < deadline),
    ensures
        work::push_if_due_run(state, log) matches Run::Done(next, _) && next == state,
{
}

/// A push that succeeded leaves nothing planned; one that failed is planned again for the
/// end of a quiet period from then on. Either way the watch goes on.
pub proof fn law_push_is_followed_up(log: Seq<Reply>)
    ensures
        match workflow::push_session_run(log) {
            Run::Done(_, rest) => work::push_once_run(log) matches Run::Done(next, end)
                && next.push_deadline is None && end == rest,
            Run::Failed(_, rest) => match ask::monotonic_run(rest) {
                Run::Done(now, end) => work::push_once_run(log) matches Run::Done(next, left)
                    && next.push_deadline == Some(work::quiet_after(now)) && left == end,
                _ => work::push_once_run(log) is Asks,
            },
            Run::Asks(_) => work::push_once_run(log) is Asks,
        },
{
}

/// Whether a turn of the watch leads from `state` to `next` while no file changes and no push
/// is due.
pub open spec fn is_quiet_turn(
    state: WorkStateView,
    change: Change,
    log: Seq<Reply>,
    next: WorkStateView,
) -> bool {
    &&& change matches Change::Paths(paths) ==> !work::touches_files(paths.deep_view())
    &&& work::after_change_run(state, change, log) matches Run::Done(seen, rest) && (
    work::is_due_run(seen.push_deadline, rest) matches Run::Done(due, _) && !due)
    &&& work::turn_run(state, change, log) matches Run::Done(end, _) && end == next
}

/// However many quiet turns pass, the planned time stays. After a change at `now` and none
/// since, a push is therefore due only once the clock shows that the quiet period after `now`
/// is over.
pub proof fn law_quiet_turns_keep_the_plan(
    states: Seq<WorkStateView>,
    changes: Seq<Change>,
    logs: Seq<Seq<Reply>>,
    now: u64,
    due_at: Seq<Reply>,
)
    requires
        states.len() == changes.len() + 1,
        changes.len() == logs.len(),
        forall|i: int|
            0 <= i < changes.len() ==> #[trigger] is_quiet_turn(
                states[i],
                changes[i],
                logs[i],
                states[i + 1],
            ),
        states[0].push_deadline == Some(work::quiet_after(now)),
    ensures
        states.last().push_deadline == Some(work::quiet_after(now)),
        work::is_due_run(states.last().push_deadline, due_at) matches Run::Done(due, _) && due ==> (
        ask::monotonic_run(due_at) matches Run::Done(later, _) && later >= now + 300_000_000_000),
    decreases changes.len(),
{
    if changes.len() > 0 {
        let last = changes.len() - 1;
        assert(is_quiet_turn(states[last], changes[last], logs[last], states[last + 1]));
        let earlier = states.drop_last();
        assert forall|i: int| 0 <= i < last implies #[trigger] is_quiet_turn(
            earlier[i],
            changes.drop_last()[i],
            logs.drop_last()[i],
            earlier[i + 1],
        ) by {
            assert(is_quiet_turn(states[i], changes[i], logs[i], states[i + 1]));
        }
        law_quiet_turns_keep_the_plan(
            earlier,
            changes.drop_last(),
            logs.drop_last(),
            now,
            due_at,
        );
        assert(earlier.last() == states[last]);
    }
}

} // verus!
