//! When the watch over the working directory goes on: its requests get the answers it needs.

use crate::ask;
use crate::exchange::{Change, Reply, RequestView, Run};
use crate::laws::beginnings;
use crate::laws::dialogue;
use crate::laws::dialogue::Turn;
use crate::laws::pages;
use crate::laws::showing;
use crate::laws::success;
use crate::laws::turns;
use crate::laws::turns::{Pushed, Round, Screen};
use crate::laws::watching;
use crate::session;
use crate::session::SessionInfoView;
use crate::status;
use crate::work;
use crate::work::{LoopStageView, WorkStateView};
use crate::workflow;
use vstd::prelude::*;

verus! {

#[verifier::spinoff_prover]
proof fn lemma_head(d: Seq<Turn>)
    requires
        d.len() == 1,
        dialogue::answered(d[0], dialogue::git_query(seq!["rev-parse"@, "HEAD"@])),
    ensures
        dialogue::succeeds(
            |log: Seq<Reply>| session::head_run(log),
            d,
            dialogue::output_of(d[0].reply),
        ),
{
    dialogue::lemma_words();
    dialogue::lemma_replies();
    dialogue::lemma_made(|log: Seq<Reply>| session::head_run(log), d);
}

/// The page for the commit `head` during work.
spec fn at_head_run(
    sessions: Seq<SessionInfoView>,
    push_deadline: Option<u128>,
    head: Seq<char>,
    log: Seq<Reply>,
) -> Run<Seq<char>> {
    match session::session_at(sessions, head) {
        Some(session) => status::working_commit_status_run(session, push_deadline, log),
        None => status::render_status_run(log),
    }
}

#[verifier::spinoff_prover]
proof fn lemma_at_head(
    d: Seq<Turn>,
    push_deadline: Option<u128>,
    screen: Screen,
)
    requires
        pages::is_work_page(
            d,
            push_deadline,
            screen.page,
            screen.sessions,
            screen.listed,
            screen.session_page,
            screen.relisted,
            screen.status,
        ),
    ensures
        dialogue::succeeds(
            |log: Seq<Reply>|
                at_head_run(
                    screen.sessions,
                    push_deadline,
                    dialogue::output_of(d[screen.listed].reply),
                    log,
                ),
            d.skip(screen.listed + 1),
            screen.page,
        ),
{
    let sessions = screen.sessions;
    let head = dialogue::output_of(d[screen.listed].reply);
    let rest = d.skip(screen.listed + 1);
    let whole = |log: Seq<Reply>| at_head_run(sessions, push_deadline, head, log);
    watching::lemma_first_at(sessions, head);
    match session::session_at(sessions, head) {
        Some(session) => {
            let i = choose|i: int|
                #[trigger] watching::is_first_at(sessions, head, i) && sessions[i] == session;
            let j = choose|j: int|
                #[trigger] watching::is_first_at(sessions, head, j) && pages::is_session_page(
                    rest,
                    sessions[j],
                    push_deadline,
                    screen.page,
                    screen.session_page,
                );
            assert(watching::is_first_at(sessions, head, i));
            assert(watching::is_first_at(sessions, head, j));
            assert(i == j);
            showing::law_session_page_is_owed(
                rest,
                session,
                push_deadline,
                screen.page,
                screen.session_page,
            );
            dialogue::lemma_same(
                |log: Seq<Reply>|
                    status::working_commit_status_run(session, push_deadline, log),
                whole,
                rest,
                screen.page,
            );
        },
        None => {
            showing::law_status_is_owed(rest, screen.relisted, screen.status, screen.page);
            dialogue::lemma_same(
                |log: Seq<Reply>| status::render_status_run(log),
                whole,
                rest,
                screen.page,
            );
        },
    }
}

/// The page of work is owed where the sessions can be listed and the commands and the clocks
/// answer.
#[verifier::spinoff_prover]
pub proof fn law_work_page_is_owed(d: Seq<Turn>, push_deadline: Option<u128>, screen: Screen)
    requires
        pages::is_work_page(
            d,
            push_deadline,
            screen.page,
            screen.sessions,
            screen.listed,
            screen.session_page,
            screen.relisted,
            screen.status,
        ),
    ensures
        dialogue::succeeds(
            |log: Seq<Reply>| status::render_work_session_status_run(push_deadline, log),
            d,
            screen.page,
        ),
{
    let sessions = screen.sessions;
    let page = screen.page;
    let listed = screen.listed;
    let head = dialogue::output_of(d[listed].reply);
    lemma_at_head(d, push_deadline, screen);
    beginnings::law_listing_is_owed(d.take(listed), sessions);
    let tail = d.skip(listed);
    assert(tail.take(1)[0] == d[listed]);
    assert(tail.skip(1) =~= d.skip(listed + 1));
    lemma_head(tail.take(1));
    dialogue::lemma_join(
        |log: Seq<Reply>| status::work_status_among_run(sessions, push_deadline, log),
        |log: Seq<Reply>| session::head_run(log),
        |head: Seq<char>, log: Seq<Reply>| at_head_run(sessions, push_deadline, head, log),
        tail,
        1,
        head,
        page,
    );
    dialogue::lemma_join(
        |log: Seq<Reply>| status::render_work_session_status_run(push_deadline, log),
        |log: Seq<Reply>| session::list_sessions_run(log),
        |sessions: Seq<SessionInfoView>, log: Seq<Reply>|
            status::work_status_among_run(sessions, push_deadline, log),
        d,
        listed,
        sessions,
        page,
    );
}

#[verifier::spinoff_prover]
proof fn lemma_attempted(d: Seq<Turn>, request: RequestView)
    requires
        d.len() == 1,
        d[0].request == request,
        d[0].reply is Outcome,
    ensures
        dialogue::succeeds(|log: Seq<Reply>| ask::attempt_run(request, log), d, ()),
{
    dialogue::lemma_replies();
    dialogue::lemma_made(|log: Seq<Reply>| ask::attempt_run(request, log), d);
}

/// A screen is owed where its page is, whether the terminal takes it or not.
#[verifier::spinoff_prover]
pub proof fn law_screen_is_owed(
    d: Seq<Turn>,
    message: Seq<char>,
    push_deadline: Option<u128>,
    screen: Screen,
)
    requires
        turns::is_screen(d, message, push_deadline, screen),
    ensures
        dialogue::succeeds(
            |log: Seq<Reply>| work::render_work_status_run(message, push_deadline, log),
            d,
            (),
        ),
{
    reveal(turns::is_screen);
    let clear = RequestView::Print("\x1b[2J\x1b[H"@);
    let tail = d.skip(1);
    let k = tail.len() - 1;
    assert(tail.take(k) =~= d.subrange(1, d.len() - 1));
    assert(tail.skip(k)[0] == d.last());
    assert(d.take(1)[0] == d[0]);
    law_work_page_is_owed(tail.take(k), push_deadline, screen);
    lemma_attempted(d.take(1), clear);
    lemma_attempted(
        tail.skip(k),
        RequestView::Print(screen.page + "\nWork: "@ + message + "\n"@),
    );
    dialogue::lemma_join(
        |log: Seq<Reply>| work::print_page_run(message, push_deadline, log),
        |log: Seq<Reply>| status::render_work_session_status_run(push_deadline, log),
        |page: Seq<char>, log: Seq<Reply>|
            ask::attempt_run(RequestView::Print(page + "\nWork: "@ + message + "\n"@), log),
        tail,
        k,
        screen.page,
        (),
    );
    dialogue::lemma_join(
        |log: Seq<Reply>| work::render_work_status_run(message, push_deadline, log),
        |log: Seq<Reply>| ask::attempt_run(clear, log),
        |_done: (), log: Seq<Reply>| work::print_page_run(message, push_deadline, log),
        d,
        1,
        (),
        (),
    );
}

#[verifier::spinoff_prover]
proof fn lemma_shown(d: Seq<Turn>, state: WorkStateView, screen: Screen)
    requires
        turns::is_screen(d, state.message, state.push_deadline, screen),
    ensures
        dialogue::succeeds(|log: Seq<Reply>| work::shown_run(state, log), d, state),
{
    law_screen_is_owed(d, state.message, state.push_deadline, screen);
    success::lemma_then_done(
        |log: Seq<Reply>| work::shown_run(state, log),
        |log: Seq<Reply>|
            work::render_work_status_run(state.message, state.push_deadline, log),
        |_done: (), log: Seq<Reply>| Run::Done(state, log),
        d,
        (),
        state,
    );
}

#[verifier::spinoff_prover]
proof fn lemma_clock(d: Seq<Turn>, now: u64)
    requires
        d.len() == 1,
        d[0].request == RequestView::Monotonic,
        d[0].reply == Reply::Monotonic(now),
    ensures
        dialogue::succeeds(|log: Seq<Reply>| ask::monotonic_run(log), d, now),
{
    dialogue::lemma_replies();
    dialogue::lemma_made(|log: Seq<Reply>| ask::monotonic_run(log), d);
}

#[verifier::spinoff_prover]
proof fn lemma_noticed(d: Seq<Turn>, now: u64, screen: Screen)
    requires
        d.len() >= 1,
        d[0].request == RequestView::Monotonic,
        d[0].reply == Reply::Monotonic(now),
        turns::is_screen(
            d.skip(1),
            work::change_text(),
            Some(work::quiet_after(now)),
            screen,
        ),
    ensures
        dialogue::succeeds(
            |log: Seq<Reply>| work::noticed_run(log),
            d,
            work::state_after(now),
        ),
{
    assert(d.take(1)[0] == d[0]);
    lemma_clock(d.take(1), now);
    lemma_shown(d.skip(1), work::state_after(now), screen);
    dialogue::lemma_join(
        |log: Seq<Reply>| work::noticed_run(log),
        |log: Seq<Reply>| ask::monotonic_run(log),
        |now: u64, log: Seq<Reply>| work::shown_run(work::state_after(now), log),
        d,
        1,
        now,
        work::state_after(now),
    );
}

#[verifier::spinoff_prover]
proof fn lemma_change_noticed(
    d: Seq<Turn>,
    change: Change,
    before: WorkStateView,
    after: WorkStateView,
    screen: Screen,
)
    requires
        turns::is_change_noticed(d, change, before, after, screen),
    ensures
        dialogue::succeeds(
            |log: Seq<Reply>| work::after_change_run(before, change, log),
            d,
            after,
        ),
{
    let whole = |log: Seq<Reply>| work::after_change_run(before, change, log);
    turns::lemma_change_text();
    match change {
        Change::Paths(paths) => {
            turns::lemma_names_a_file(paths.deep_view());
            if work::touches_files(paths.deep_view()) {
                let now = d[0].reply->Monotonic_0;
                assert(after =~= work::state_after(now));
                lemma_noticed(d, now, screen);
                dialogue::lemma_same(
                    |log: Seq<Reply>| work::noticed_run(log),
                    whole,
                    d,
                    after,
                );
            } else {
                dialogue::lemma_replies();
                dialogue::lemma_made(whole, d);
            }
        },
        Change::Problem(error) => {
            let state = work::warned(before, error@);
            assert(after =~= state);
            lemma_shown(d, state, screen);
            dialogue::lemma_same(
                |log: Seq<Reply>| work::shown_run(state, log),
                whole,
                d,
                after,
            );
        },
        Change::Quiet => {
            lemma_shown(d, before, screen);
            dialogue::lemma_same(
                |log: Seq<Reply>| work::shown_run(before, log),
                whole,
                d,
                after,
            );
        },
        Change::Disconnected => {},
    }
}

#[verifier::spinoff_prover]
proof fn lemma_pushed(d: Seq<Turn>, after: WorkStateView, p: Pushed)
    requires
        turns::is_pushed(d, after, p),
    ensures
        dialogue::succeeds(|log: Seq<Reply>| work::push_once_run(log), d, after),
{
    if p.succeeded {
        success::law_push_is_owed(d, p.name, p.entered, p.claimed);
        lemma_pushed_well(d, after, p.name);
    } else {
        lemma_pushed_badly(d, after, p.error);
    }
}

#[verifier::spinoff_prover]
proof fn lemma_pushed_well(d: Seq<Turn>, after: WorkStateView, name: Seq<char>)
    requires
        dialogue::succeeds(|log: Seq<Reply>| workflow::push_session_run(log), d, name),
        after.push_deadline is None,
        after.message == "Pushed `"@ + name + "`. Watching for changes."@,
    ensures
        dialogue::succeeds(|log: Seq<Reply>| work::push_once_run(log), d, after),
{
    let push = |log: Seq<Reply>| workflow::push_session_run(log);
    let whole = |log: Seq<Reply>| work::push_once_run(log);
    assert forall|n: int| 0 <= n < d.len() implies whole(
        #[trigger] dialogue::replies(d).take(n),
    ) == Run::<WorkStateView>::Asks(d[n].request) by {
        assert(push(dialogue::replies(d).take(n)) == Run::<Seq<char>>::Asks(d[n].request));
    }
    assert forall|rest: Seq<Reply>| whole(
        #[trigger] (dialogue::replies(d) + rest),
    ) == Run::Done(after, rest) by {
        assert(push(dialogue::replies(d) + rest) == Run::Done(name, rest));
    }
}

#[verifier::spinoff_prover]
proof fn lemma_pushed_badly(d: Seq<Turn>, after: WorkStateView, error: Seq<char>)
    requires
        d.len() >= 1,
        dialogue::fails(
            |log: Seq<Reply>| workflow::push_session_run(log),
            d.drop_last(),
            error,
        ),
        d.last().request == RequestView::Monotonic,
        d.last().reply matches Reply::Monotonic(now) && after.push_deadline == Some(
            (now + 300_000_000_000) as u128,
        ),
        after.message == "Push failed: "@ + error,
    ensures
        dialogue::succeeds(|log: Seq<Reply>| work::push_once_run(log), d, after),
{
    let push = |log: Seq<Reply>| workflow::push_session_run(log);
    let whole = |log: Seq<Reply>| work::push_once_run(log);
    let m = d.len() - 1;
    let all = dialogue::replies(d);
    let front = dialogue::replies(d.drop_last());
    assert forall|n: int| 0 <= n < d.len() implies whole(
        #[trigger] dialogue::replies(d).take(n),
    ) == Run::<WorkStateView>::Asks(d[n].request) by {
        if n < m {
            assert(all.take(n) =~= front.take(n));
            assert(push(front.take(n)) == Run::<Seq<char>>::Asks(d.drop_last()[n].request));
        } else {
            assert(all.take(n) =~= front + Seq::empty());
            assert(push(front + Seq::empty()) == Run::<Seq<char>>::Failed(
                error,
                Seq::<Reply>::empty(),
            ));
        }
    }
    assert forall|rest: Seq<Reply>| whole(
        #[trigger] (dialogue::replies(d) + rest),
    ) == Run::Done(after, rest) by {
        let left = seq![d[m].reply] + rest;
        assert(all + rest =~= front + left);
        assert(push(front + left) == Run::<Seq<char>>::Failed(error, left));
        assert(left.skip(1) =~= rest);
        assert(left[0] == d[m].reply);
    }
}

#[verifier::spinoff_prover]
proof fn lemma_push_now(
    d: Seq<Turn>,
    push_deadline: Option<u128>,
    after: WorkStateView,
    a: int,
    b: int,
    r: Round,
)
    requires
        0 <= a <= b <= d.len(),
        turns::is_screen(d.take(a), "Pushing changes..."@, push_deadline, r.announcement),
        turns::is_pushed(d.subrange(a, b), after, r.push),
        turns::is_screen(d.skip(b), after.message, after.push_deadline, r.outcome),
    ensures
        dialogue::succeeds(|log: Seq<Reply>| work::push_now_run(push_deadline, log), d, after),
{
    let tail = d.skip(a);
    let k = b - a;
    assert(tail.take(k) =~= d.subrange(a, b));
    assert(tail.skip(k) =~= d.skip(b));
    law_screen_is_owed(d.take(a), "Pushing changes..."@, push_deadline, r.announcement);
    lemma_pushed(tail.take(k), after, r.push);
    lemma_shown(tail.skip(k), after, r.outcome);
    dialogue::lemma_join(
        |log: Seq<Reply>| work::push_and_show_run(log),
        |log: Seq<Reply>| work::push_once_run(log),
        |state: WorkStateView, log: Seq<Reply>| work::shown_run(state, log),
        tail,
        k,
        after,
        after,
    );
    dialogue::lemma_join(
        |log: Seq<Reply>| work::push_now_run(push_deadline, log),
        |log: Seq<Reply>|
            work::render_work_status_run("Pushing changes..."@, push_deadline, log),
        |_done: (), log: Seq<Reply>| work::push_and_show_run(log),
        d,
        a,
        (),
        after,
    );
}

#[verifier::spinoff_prover]
proof fn lemma_due(d: Seq<Turn>, push_deadline: Option<u128>, due: bool)
    requires
        match push_deadline {
            Some(deadline) => d.len() == 1 && d[0].request == RequestView::Monotonic && (
            d[0].reply matches Reply::Monotonic(now) && due == (now >= deadline)),
            None => d.len() == 0 && !due,
        },
    ensures
        dialogue::succeeds(|log: Seq<Reply>| work::is_due_run(push_deadline, log), d, due),
{
    dialogue::lemma_replies();
    dialogue::lemma_made(|log: Seq<Reply>| work::is_due_run(push_deadline, log), d);
}

#[verifier::spinoff_prover]
proof fn lemma_push_if_due(
    d: Seq<Turn>,
    before: WorkStateView,
    after: WorkStateView,
    r: Round,
)
    requires
        turns::is_push_if_due(d, before, after, r),
    ensures
        dialogue::succeeds(
            |log: Seq<Reply>| work::push_if_due_run(before, log),
            d,
            after,
        ),
{
    let next = |due: bool, log: Seq<Reply>|
        if due {
            work::push_now_run(before.push_deadline, log)
        } else {
            Run::Done(before, log)
        };
    let k = if before.push_deadline is Some {
        1int
    } else {
        0int
    };
    let due = before.push_deadline is Some && (d[0].reply->Monotonic_0 as int
        >= before.push_deadline->Some_0 as int);
    let front = d.take(k);
    let tail = d.skip(k);
    assert(k == 1 ==> front[0] == d[0]);
    lemma_due(front, before.push_deadline, due);
    let then = |log: Seq<Reply>| next(due, log);
    if due {
        assert(tail.take(r.announced - 1) =~= d.subrange(1, r.announced));
        assert(tail.subrange(r.announced - 1, r.pushed - 1) =~= d.subrange(
            r.announced,
            r.pushed,
        ));
        assert(tail.skip(r.pushed - 1) =~= d.skip(r.pushed));
        lemma_push_now(
            tail,
            before.push_deadline,
            after,
            r.announced - 1,
            r.pushed - 1,
            r,
        );
        dialogue::lemma_same(
            |log: Seq<Reply>| work::push_now_run(before.push_deadline, log),
            then,
            tail,
            after,
        );
    } else {
        assert(dialogue::succeeds(then, tail, after)) by {
            dialogue::lemma_replies();
        }
    }
    dialogue::lemma_join(
        |log: Seq<Reply>| work::push_if_due_run(before, log),
        |log: Seq<Reply>| work::is_due_run(before.push_deadline, log),
        next,
        d,
        k,
        due,
        after,
    );
}

#[verifier::spinoff_prover]
proof fn lemma_wait(
    d: Seq<Turn>,
    change: Change,
    before: WorkStateView,
    after: WorkStateView,
    n: int,
    r: Round,
)
    requires
        1 <= n <= d.len(),
        d[0].request == RequestView::AwaitChange,
        d[0].reply == Reply::Change(change),
        turns::is_change_noticed(d.subrange(1, n), change, before, r.seen, r.screen),
        turns::is_push_if_due(d.skip(n), r.seen, after, r),
    ensures
        dialogue::succeeds(
            |log: Seq<Reply>| work::wait_run(before, log),
            d,
            LoopStageView::Watching(after),
        ),
{
    let stage = LoopStageView::Watching(after);
    let tail = d.skip(1);
    assert(tail.take(n - 1) =~= d.subrange(1, n));
    assert(tail.skip(n - 1) =~= d.skip(n));
    lemma_change_noticed(tail.take(n - 1), change, before, r.seen, r.screen);
    lemma_push_if_due(tail.skip(n - 1), r.seen, after, r);
    dialogue::lemma_join(
        |log: Seq<Reply>| work::turn_run(before, change, log),
        |log: Seq<Reply>| work::after_change_run(before, change, log),
        |state: WorkStateView, log: Seq<Reply>| work::push_if_due_run(state, log),
        tail,
        n - 1,
        r.seen,
        after,
    );
    let last = |state: WorkStateView, log: Seq<Reply>|
        Run::Done(LoopStageView::Watching(state), log);
    let next = |change: Change, log: Seq<Reply>|
        work::turn_run(before, change, log).and_then(last);
    success::lemma_then_done(
        |log: Seq<Reply>| next(change, log),
        |log: Seq<Reply>| work::turn_run(before, change, log),
        last,
        tail,
        after,
        stage,
    );
    let first = |log: Seq<Reply>| ask::change_run(log);
    let front = d.take(1);
    assert(front[0] == d[0]);
    assert(dialogue::succeeds(first, front, change)) by {
        dialogue::lemma_replies();
        dialogue::lemma_made(first, front);
    }
    dialogue::lemma_join(
        |log: Seq<Reply>| work::wait_run(before, log),
        first,
        next,
        d,
        1,
        change,
        stage,
    );
}

#[verifier::spinoff_prover]
proof fn lemma_stopped(d: Seq<Turn>, push_deadline: Option<u128>, screen: Screen)
    requires
        turns::is_screen(d, "Stopping. Unclaiming session..."@, push_deadline, screen),
    ensures
        dialogue::succeeds(
            |log: Seq<Reply>| work::stop_run(push_deadline, log),
            d,
            LoopStageView::Finished,
        ),
{
    let message = "Stopping. Unclaiming session..."@;
    law_screen_is_owed(d, message, push_deadline, screen);
    success::lemma_then_done(
        |log: Seq<Reply>| work::stop_run(push_deadline, log),
        |log: Seq<Reply>| work::render_work_status_run(message, push_deadline, log),
        |_done: (), log: Seq<Reply>| Run::Done(LoopStageView::Finished, log),
        d,
        (),
        LoopStageView::Finished,
    );
}

/// A turn of the watch is owed whether its push succeeds or not, as long as the watcher goes
/// on and what is shown is owed.
#[verifier::spinoff_prover]
pub proof fn law_watch_turn_is_owed(
    d: Seq<Turn>,
    before: WorkStateView,
    stage: LoopStageView,
    r: Round,
)
    requires
        turns::is_watch_turn(d, before, stage, r),
    ensures
        dialogue::succeeds(
            |log: Seq<Reply>| work::run_work_loop_run(LoopStageView::Watching(before), log),
            d,
            stage,
        ),
{
    let running = d[0].reply->Running_0;
    let tail = d.skip(1);
    let next = |running: bool, log: Seq<Reply>|
        if running {
            work::wait_run(before, log)
        } else {
            work::stop_run(before.push_deadline, log)
        };
    let then = |log: Seq<Reply>| next(running, log);
    if running {
        let change = d[1].reply->Change_0;
        let after = stage->Watching_0;
        assert(tail[0] == d[1]);
        assert(tail.subrange(1, r.noticed - 1) =~= d.subrange(2, r.noticed));
        assert(tail.skip(r.noticed - 1) =~= d.skip(r.noticed));
        lemma_wait(tail, change, before, after, r.noticed - 1, r);
        dialogue::lemma_same(
            |log: Seq<Reply>| work::wait_run(before, log),
            then,
            tail,
            stage,
        );
    } else {
        lemma_stopped(tail, before.push_deadline, r.screen);
        dialogue::lemma_same(
            |log: Seq<Reply>| work::stop_run(before.push_deadline, log),
            then,
            tail,
            stage,
        );
    }
    let first = |log: Seq<Reply>| ask::still_running_run(log);
    let front = d.take(1);
    assert(front[0] == d[0]);
    assert(dialogue::succeeds(first, front, running)) by {
        dialogue::lemma_replies();
        dialogue::lemma_made(first, front);
    }
    dialogue::lemma_join(
        |log: Seq<Reply>| work::run_work_loop_run(LoopStageView::Watching(before), log),
        first,
        next,
        d,
        1,
        running,
        stage,
    );
}

} // verus!
