//! Counts and lists: files in agreement, the sessions that a list shows, durations.

use crate::exchange::{ClockReading, Reply};
use crate::session;
use crate::session::{SessionInfoView, STATUS_SESSION_LIMIT};
use crate::status;
use crate::sync;
use crate::text;
use crate::time;
use vstd::prelude::*;

verus! {

/// The files that differ are among all files, and each of the rest is synchronized.
pub proof fn law_files_add_up(changed: Seq<char>, untracked: Seq<char>, remote: Seq<char>)
    ensures
        ({
            let counted = sync::sync_status_of(changed, untracked, remote);
            &&& counted.unsynced_files <= counted.total_files
            &&& sync::synchronized_files(counted) + counted.unsynced_files == counted.total_files
            &&& sync::files_in(remote).len() <= counted.total_files
        }),
{
    let unsynced = sync::unsynced_set(changed, untracked);
    let total = sync::total_set(changed, untracked, remote);
    sync::filled_lines(changed).lemma_cardinality_of_set();
    sync::filled_lines(untracked).lemma_cardinality_of_set();
    sync::filled_lines(remote).lemma_cardinality_of_set();
    vstd::set_lib::lemma_len_subset(unsynced, total);
    vstd::set_lib::lemma_len_subset(sync::files_in(remote), total);
}

/// A session counts as synchronized exactly when git names no file that changed and none
/// that is untracked.
pub proof fn law_synchronized_means_no_difference(
    changed: Seq<char>,
    untracked: Seq<char>,
    remote: Seq<char>,
)
    ensures
        sync::sync_status_of(changed, untracked, remote).unsynced_files == 0
            <==> sync::filled_lines(changed).len() == 0 && sync::filled_lines(untracked).len() == 0,
{
    let changes = sync::filled_lines(changed);
    let others = sync::filled_lines(untracked);
    let unsynced = sync::unsynced_set(changed, untracked);
    changes.lemma_cardinality_of_set();
    others.lemma_cardinality_of_set();
    if changes.len() == 0 && others.len() == 0 {
        assert(unsynced =~= Set::empty());
    }
    if changes.len() > 0 {
        assert(changes.contains(changes[0]));
        assert(unsynced.contains(changes[0]));
        assert(unsynced.len() != 0);
    }
    if others.len() > 0 {
        assert(others.contains(others[0]));
        assert(unsynced.contains(others[0]));
        assert(unsynced.len() != 0);
    }
}

/// Looking up the commits that sessions are based on keeps the sessions and their order, and
/// changes nothing else of them.
pub proof fn law_bases_keep_the_sessions(
    found: Seq<SessionInfoView>,
    rest: Seq<SessionInfoView>,
    log: Seq<Reply>,
)
    requires
        session::with_base_commits_run(found, rest, log) is Done,
    ensures
        ({
            let all = session::with_base_commits_run(found, rest, log)->Done_0;
            &&& all.len() == found.len() + rest.len()
            &&& all.take(found.len() as int) == found
            &&& forall|i: int|
                0 <= i < rest.len() ==> (#[trigger] all[found.len() + i]) == (SessionInfoView {
                    base_commit: all[found.len() + i].base_commit,
                    ..rest[i]
                })
        }),
    decreases rest.len(),
{
    if rest.len() == 0 {
        assert(found.take(found.len() as int) =~= found);
    } else {
        let base = session::base_commit_run(session::branch_of(rest[0].name), log);
        assert(base is Done);
        let first = SessionInfoView { base_commit: base->Done_0, ..rest[0] };
        law_bases_keep_the_sessions(found.push(first), rest.skip(1), base->Done_1);
        let all = session::with_base_commits_run(found, rest, log)->Done_0;
        let front = all.take(found.len() as int + 1);
        assert(front == found.push(first));
        assert(all.take(found.len() as int) =~= front.drop_last());
        assert forall|i: int| 0 <= i < rest.len() implies (#[trigger] all[found.len() + i]) == (
        SessionInfoView { base_commit: all[found.len() + i].base_commit, ..rest[i] }) by {
            if i == 0 {
                assert(all[found.len() as int] == front.last());
            } else {
                let j = i - 1;
                assert(all[found.push(first).len() + j] == SessionInfoView {
                    base_commit: all[found.push(first).len() + j].base_commit,
                    ..rest.skip(1)[j]
                });
            }
        }
    }
}

/// The first session that a test holds of is one of the sessions, and is found if there is
/// any.
proof fn lemma_first_session(
    sessions: Seq<SessionInfoView>,
    test: spec_fn(SessionInfoView) -> bool,
)
    ensures
        match session::first_session(sessions, test) {
            Some(found) => sessions.contains(found) && test(found),
            None => forall|i: int| 0 <= i < sessions.len() ==> !test(#[trigger] sessions[i]),
        },
    decreases sessions.len(),
{
    if sessions.len() > 0 && !test(sessions[0]) {
        let rest = sessions.skip(1);
        lemma_first_session(rest, test);
        match session::first_session(sessions, test) {
            Some(found) => {
                let i = rest.index_of(found);
                assert(sessions[i + 1] == found);
            },
            None => {
                assert forall|i: int| 0 <= i < sessions.len() implies !test(
                    #[trigger] sessions[i],
                ) by {
                    if i > 0 {
                        assert(rest[i - 1] == sessions[i]);
                    }
                }
            },
        }
    } else if sessions.len() > 0 {
        assert(sessions.contains(sessions[0]));
    }
}

/// Whether no two of the sessions have the same name.
pub open spec fn names_differ(sessions: Seq<SessionInfoView>) -> bool {
    forall|i: int, j: int|
        0 <= i < j < sessions.len() ==> (#[trigger] sessions[i]).name != (
        #[trigger] sessions[j]).name
}

/// How many sessions have another name than the given one, where no two names are the same.
proof fn lemma_others_count(sessions: Seq<SessionInfoView>, name: Seq<char>)
    requires
        names_differ(sessions),
    ensures
        session::others(sessions, Some(name)).len() == sessions.len() - (if exists|i: int|
            0 <= i < sessions.len() && (#[trigger] sessions[i]).name == name {
            1int
        } else {
            0int
        }),
    decreases sessions.len(),
{
    reveal(Seq::filter);
    if sessions.len() > 0 {
        let front = sessions.drop_last();
        assert(names_differ(front)) by {
            assert forall|i: int, j: int| 0 <= i < j < front.len() implies (
            #[trigger] front[i]).name != (#[trigger] front[j]).name by {
                assert(sessions[i].name != sessions[j].name);
            }
        }
        lemma_others_count(front, name);
        if exists|i: int| 0 <= i < front.len() && (#[trigger] front[i]).name == name {
            let i = choose|i: int| 0 <= i < front.len() && (#[trigger] front[i]).name == name;
            assert(sessions[i].name == name);
            assert(sessions[i].name != sessions[sessions.len() - 1].name);
        } else if sessions.last().name == name {
            assert(sessions[sessions.len() - 1].name == name);
        } else {
            assert forall|i: int| 0 <= i < sessions.len() implies (#[trigger] sessions[i]).name
                != name by {
                if i < front.len() {
                    assert(front[i].name != name);
                }
            }
        }
    }
}

/// A short list holds no more sessions than its limit, all of them sessions that are there.
pub proof fn law_visible_sessions_keep_the_limit(
    sessions: Seq<SessionInfoView>,
    current_session: Option<Seq<char>>,
)
    ensures
        session::visible(sessions, current_session).len() <= STATUS_SESSION_LIMIT,
        forall|i: int|
            0 <= i < session::visible(sessions, current_session).len() ==> sessions.contains(
                #[trigger] session::visible(sessions, current_session)[i],
            ),
{
    let shown = session::visible(sessions, current_session);
    let front = session::pinned(sessions, current_session);
    let back = session::others(sessions, current_session);
    let differs = |session: SessionInfoView| Some(session.name) != current_session;
    if let Some(name) = current_session {
        lemma_first_session(sessions, |session: SessionInfoView| session.name == name);
    }
    assert forall|i: int| 0 <= i < shown.len() implies sessions.contains(#[trigger] shown[i]) by {
        if i >= front.len() {
            assert(shown[i] == back[i - front.len()]);
            sessions.lemma_filter_contains_rev(differs, back[i - front.len()]);
        }
    }
}

/// The current session, if it is there, is the first that a short list shows.
pub proof fn law_current_session_is_first(sessions: Seq<SessionInfoView>, name: Seq<char>)
    requires
        exists|i: int| 0 <= i < sessions.len() && (#[trigger] sessions[i]).name == name,
    ensures
        session::visible(sessions, Some(name)).len() > 0,
        session::visible(sessions, Some(name))[0].name == name,
{
    lemma_first_session(sessions, |session: SessionInfoView| session.name == name);
}

/// Whether the session at `i` is the first one of this name.
pub open spec fn is_first_named(sessions: Seq<SessionInfoView>, name: Option<Seq<char>>, i: int) -> bool {
    &&& 0 <= i < sessions.len()
    &&& name == Some(sessions[i].name)
    &&& forall|j: int| 0 <= j < i ==> name != Some((#[trigger] sessions[j]).name)
}

proof fn lemma_first_named(sessions: Seq<SessionInfoView>, name: Seq<char>)
    ensures
        match session::first_session(
            sessions,
            |session: SessionInfoView| session.name == name,
        ) {
            Some(found) => exists|i: int|
                #[trigger] is_first_named(sessions, Some(name), i) && sessions[i] == found,
            None => forall|i: int| !#[trigger] is_first_named(sessions, Some(name), i),
        },
    decreases sessions.len(),
{
    let test = |session: SessionInfoView| session.name == name;
    if sessions.len() == 0 {
    } else if sessions[0].name == name {
        assert(is_first_named(sessions, Some(name), 0));
    } else {
        let rest = sessions.skip(1);
        lemma_first_named(rest, name);
        match session::first_session(rest, test) {
            Some(found) => {
                let i = choose|i: int|
                    #[trigger] is_first_named(rest, Some(name), i) && rest[i] == found;
                assert forall|j: int| 0 <= j < i + 1 implies Some(name) != Some(
                    (#[trigger] sessions[j]).name,
                ) by {
                    if j > 0 {
                        assert(Some(name) != Some(rest[j - 1].name));
                    }
                }
                assert(is_first_named(sessions, Some(name), i + 1));
            },
            None => {
                assert forall|i: int| !#[trigger] is_first_named(sessions, Some(name), i) by {
                    if is_first_named(sessions, Some(name), i) {
                        assert forall|j: int| 0 <= j < i - 1 implies Some(name) != Some(
                            (#[trigger] rest[j]).name,
                        ) by {
                            assert(Some(name) != Some(sessions[j + 1].name));
                        }
                        assert(is_first_named(rest, Some(name), i - 1));
                    }
                }
            },
        }
    }
}

/// A short list shows the current session, if it is there, and then the others in their
/// order, as many as three have room for.
#[verifier::spinoff_prover]
pub proof fn law_visible_sessions_in_order(
    sessions: Seq<SessionInfoView>,
    current_session: Option<Seq<char>>,
)
    ensures
        ({
            let shown = session::visible(sessions, current_session);
            let others = sessions.filter(
                |session: SessionInfoView| Some(session.name) != current_session,
            );
            if exists|i: int| is_first_named(sessions, current_session, i) {
                exists|i: int|
                    #[trigger] is_first_named(sessions, current_session, i) && shown == seq![
                        sessions[i],
                    ] + others.take(
                        if others.len() < 2 {
                            others.len() as int
                        } else {
                            2
                        },
                    )
            } else {
                shown == others.take(
                    if others.len() < 3 {
                        others.len() as int
                    } else {
                        3
                    },
                )
            }
        }),
{
    let others = session::others(sessions, current_session);
    let shown = session::visible(sessions, current_session);
    match current_session {
        Some(name) => {
            lemma_first_named(sessions, name);
            match session::first_session(
                sessions,
                |session: SessionInfoView| session.name == name,
            ) {
                Some(found) => {
                    let i = choose|i: int|
                        #[trigger] is_first_named(sessions, current_session, i) && sessions[i]
                            == found;
                    assert(is_first_named(sessions, current_session, i));
                    let n = if others.len() < 2 {
                        others.len() as int
                    } else {
                        2
                    };
                    assert(shown =~= seq![sessions[i]] + others.take(n));
                },
                None => {
                    let n = if others.len() < 3 {
                        others.len() as int
                    } else {
                        3
                    };
                    assert(shown =~= others.take(n));
                },
            }
        },
        None => {
            let n = if others.len() < 3 {
                others.len() as int
            } else {
                3
            };
            assert(shown =~= others.take(n));
        },
    }
}

/// A short list leaves no room while there are sessions to show, if no two have the same name.
pub proof fn law_visible_sessions_fill_the_limit(
    sessions: Seq<SessionInfoView>,
    current_session: Option<Seq<char>>,
)
    requires
        names_differ(sessions),
    ensures
        session::visible(sessions, current_session).len() == (if sessions.len()
            < STATUS_SESSION_LIMIT {
            sessions.len()
        } else {
            STATUS_SESSION_LIMIT as nat
        }),
{
    match current_session {
        Some(name) => {
            lemma_first_session(sessions, |session: SessionInfoView| session.name == name);
            lemma_others_count(sessions, name);
            if let Some(found) = session::first_session(
                sessions,
                |session: SessionInfoView| session.name == name,
            ) {
                let i = sessions.index_of(found);
                assert(sessions[i].name == name);
            }
        },
        None => {
            lemma_filter_keeps_all(
                sessions,
                |session: SessionInfoView| Some(session.name) != current_session,
            );
        },
    }
}

proof fn lemma_filter_keeps_all(
    sessions: Seq<SessionInfoView>,
    test: spec_fn(SessionInfoView) -> bool,
)
    requires
        forall|session: SessionInfoView| #[trigger] test(session),
    ensures
        sessions.filter(test) == sessions,
    decreases sessions.len(),
{
    reveal(Seq::filter);
    if sessions.len() > 0 {
        lemma_filter_keeps_all(sessions.drop_last(), test);
        assert(sessions.drop_last().push(sessions.last()) =~= sessions);
    }
}

/// The status page shows every session in one of its two lists and none in both: those based
/// on the commit that is checked out, and the others.
pub proof fn law_lists_share_out_the_sessions(sessions: Seq<SessionInfoView>, commit: Seq<char>)
    ensures
        status::based_on(sessions, commit).len() + status::not_based_on(sessions, commit).len()
            == sessions.len(),
        forall|session: SessionInfoView|
            status::based_on(sessions, commit).contains(session) <==> sessions.contains(session)
                && session.base_commit == commit,
        forall|session: SessionInfoView|
            status::not_based_on(sessions, commit).contains(session) <==> sessions.contains(
                session,
            ) && session.base_commit != commit,
    decreases sessions.len(),
{
    reveal(Seq::filter);
    if sessions.len() > 0 {
        let front = sessions.drop_last();
        let last = sessions.last();
        law_lists_share_out_the_sessions(front, commit);
        assert forall|session: SessionInfoView|
            sessions.contains(session) == (front.contains(session) || session == last) by {
            if front.contains(session) {
                let i = front.index_of(session);
                assert(sessions[i] == session);
            }
            if session == last {
                assert(sessions[sessions.len() - 1] == session);
            }
            if sessions.contains(session) && session != last {
                let i = sessions.index_of(session);
                assert(front[i] == session);
            }
        }
        let based = status::based_on(front, commit);
        let other = status::not_based_on(front, commit);
        assert forall|session: SessionInfoView|
            based.push(last).contains(session) == (based.contains(session) || session == last) by {
            lemma_push_contains(based, last, session);
        }
        assert forall|session: SessionInfoView|
            other.push(last).contains(session) == (other.contains(session) || session == last) by {
            lemma_push_contains(other, last, session);
        }
    }
}

proof fn lemma_push_contains(
    sessions: Seq<SessionInfoView>,
    last: SessionInfoView,
    session: SessionInfoView,
)
    ensures
        sessions.push(last).contains(session) == (sessions.contains(session) || session == last),
{
    if sessions.contains(session) {
        let i = sessions.index_of(session);
        assert(sessions.push(last)[i] == session);
    }
    if session == last {
        assert(sessions.push(last)[sessions.len() as int] == session);
    }
    if sessions.push(last).contains(session) && session != last {
        let i = sessions.push(last).index_of(session);
        assert(sessions[i] == session);
    }
}

/// A list shows the sessions in front up to its limit, and counts those that it hides.
pub proof fn law_list_counts_what_it_hides(count: nat, limit: Option<usize>)
    ensures
        status::shown_count(count, limit) <= count,
        limit matches Some(most) ==> status::shown_count(count, limit) <= most,
        limit is None ==> status::shown_count(count, limit) == count,
        status::hidden_text((count - status::shown_count(count, limit)) as nat).len() == 0
            <==> status::shown_count(count, limit) == count,
{
    reveal_strlit("    +");
}

/// The days, hours and minutes of a duration make up all of it but less than a minute, and
/// hours and minutes stay below a day and an hour.
pub proof fn law_duration_adds_up(total_seconds: nat)
    ensures
        ({
            let days = total_seconds / 86_400;
            let hours = (total_seconds % 86_400) / 3_600;
            let minutes = (total_seconds % 3_600) / 60;
            &&& hours < 24
            &&& minutes < 60
            &&& days * 86_400 + hours * 3_600 + minutes * 60 <= total_seconds
            &&& total_seconds < days * 86_400 + hours * 3_600 + minutes * 60 + 60
            &&& time::duration_text(total_seconds) == text::decimal(days) + "d "@ + text::decimal(
                hours,
            ) + "h "@ + text::decimal(minutes) + "m"@
        }),
{
}

/// Time that passes is counted second by second, and a time to come counts as now.
pub proof fn law_elapsed_follows_the_clock(earlier: u64, later: u64, unix_seconds: i64)
    requires
        earlier <= later <= i64::MAX,
        0 <= unix_seconds,
    ensures
        time::elapsed_seconds(ClockReading::Seconds(earlier), unix_seconds)
            <= time::elapsed_seconds(ClockReading::Seconds(later), unix_seconds),
        time::elapsed_seconds(ClockReading::Seconds(later), unix_seconds) <= time::elapsed_seconds(
            ClockReading::Seconds(earlier),
            unix_seconds,
        ) + (later - earlier),
        later <= unix_seconds ==> time::elapsed_seconds(ClockReading::Seconds(later), unix_seconds)
            == 0,
{
}

} // verus!
