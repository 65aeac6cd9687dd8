//! The pages on the sessions, word for word, and what is asked for them.

use crate::claim;
use crate::claim::{ClaimInfoView, ClaimeeIdView};
use crate::exchange::{CommandLineView, Program, Reply, RequestView, Run};
use crate::laws::dialogue;
use crate::laws::dialogue::Turn;
use crate::laws::replay;
use crate::laws::starting;
use crate::laws::transcripts;
use crate::laws::watching;
use crate::session;
use crate::session::SessionInfoView;
use crate::status;
use crate::style;
use crate::sync;
use crate::sync::SyncStatusView;
use crate::text;
use crate::time;
use vstd::prelude::*;

verus! {

/// The user of this machine could not be found out: no variable names the user, or nothing
/// names the machine.
pub open spec fn is_unknown_setup(d: Seq<Turn>) -> bool {
    ||| {
        &&& d.len() == 2
        &&& d[0].request == RequestView::Variable("USERNAME"@)
        &&& d[0].reply == Reply::Variable(None)
        &&& d[1].request == RequestView::Variable("USER"@)
        &&& d[1].reply == Reply::Variable(None)
    }
    ||| d.len() == 4 && is_some_user(d.take(1)) && is_unknown_machine(d.skip(1))
    ||| d.len() == 5 && is_some_user(d.take(2)) && is_unknown_machine(d.skip(2))
}

/// A variable names the user.
pub open spec fn is_some_user(d: Seq<Turn>) -> bool {
    d.last().reply matches Reply::Variable(Some(user)) && transcripts::is_user(d, user@)
}

/// Neither a variable nor a command names the machine.
pub open spec fn is_unknown_machine(d: Seq<Turn>) -> bool {
    &&& d.len() == 3
    &&& d[0].request == RequestView::Variable("COMPUTERNAME"@)
    &&& d[0].reply == Reply::Variable(None)
    &&& d[1].request == RequestView::Variable("HOSTNAME"@)
    &&& d[1].reply == Reply::Variable(None)
    &&& d[2].request == RequestView::Command(
        CommandLineView {
            program: Program::Hostname,
            args: seq![],
            index_file: None,
            stdin: None,
            collect: true,
        },
    )
    &&& d[2].reply is Command
    &&& !dialogue::has_output(d[2].reply)
}

/// The user of this machine was compared with `id`. Where they are not known, they count as
/// another.
#[verifier::opaque]
pub open spec fn is_own_check(d: Seq<Turn>, id: ClaimeeIdView, own: bool) -> bool {
    if own {
        transcripts::is_setup(d, id)
    } else {
        is_unknown_setup(d) || exists|other: ClaimeeIdView|
            other != id && #[trigger] transcripts::is_setup(d, other)
    }
}

proof fn lemma_current(d: Seq<Turn>, log: Seq<Reply>)
    requires
        log == dialogue::replies(d),
        dialogue::makes(|log: Seq<Reply>| claim::current_run(log), d),
        !(claim::current_run(log) is Asks),
        claim::current_run(log) matches Run::Done(_, rest) ==> rest.len() == 0,
        claim::current_run(log) matches Run::Failed(_, rest) ==> rest.len() == 0,
    ensures
        match claim::current_run(log) {
            Run::Done(id, _) => transcripts::is_setup(d, id),
            _ => is_unknown_setup(d),
        },
{
    dialogue::lemma_replies();
    let w = |log: Seq<Reply>| claim::current_run(log);
    let all = dialogue::replies(d);
    assert(d.len() > 0 ==> w(all.take(0)) is Asks);
    assert(d.len() > 1 ==> w(all.take(1)) is Asks);
    assert(d.len() > 2 ==> w(all.take(2)) is Asks);
    assert(d.len() > 3 ==> w(all.take(3)) is Asks);
    assert(d.len() > 4 ==> w(all.take(4)) is Asks);
    assert(d.len() > 5 ==> w(all.take(5)) is Asks);
}

pub(crate) proof fn lemma_own_check(d: Seq<Turn>, id: ClaimeeIdView, own: bool)
    requires
        dialogue::succeeds(
            |log: Seq<Reply>| claim::is_known_current_setup_run(id, log),
            d,
            own,
        ),
    ensures
        is_own_check(d, id, own),
{
    reveal(is_own_check);
    let w = |log: Seq<Reply>| claim::is_known_current_setup_run(id, log);
    let all = dialogue::replies(d);
    assert(all + Seq::empty() =~= all);
    assert(w(all + Seq::empty()) == Run::Done(own, Seq::<Reply>::empty()));
    let current = |log: Seq<Reply>| claim::current_run(log);
    assert forall|n: int| 0 <= n < d.len() implies current(#[trigger] all.take(n)) == Run::<
        ClaimeeIdView,
    >::Asks(d[n].request) by {
        assert(w(all.take(n)) == Run::<bool>::Asks(d[n].request));
    }
    lemma_current(d, all);
}

/// The clock was read, and `elapsed` is how long before that `since` was.
pub open spec fn is_elapsed(turn: Turn, since: i64, elapsed: Seq<char>) -> bool {
    &&& turn.request == RequestView::Clock
    &&& turn.reply matches Reply::Clock(reading) && elapsed == time::duration_text(
        time::elapsed_seconds(reading, since),
    )
}

/// The local time of `at` was found out; where the calendar does not reach as far, that of
/// now takes its place.
pub open spec fn is_local_time(turn: Turn, at: i64, timestamp: Seq<char>) -> bool {
    if -8_334_601_228_800 <= at <= 8_210_266_876_799 {
        &&& turn.request == RequestView::LocalOffset(at)
        &&& turn.reply matches Reply::Offset(offset) && -86_400 < offset < 86_400 && timestamp
            == time::claim_timestamp_text(at, offset)
    } else {
        &&& turn.request == RequestView::LocalNow
        &&& turn.reply matches Reply::LocalNow(now, offset) && -86_400 < offset < 86_400
            && -8_334_601_228_800 <= now <= 8_210_266_876_799 && timestamp
            == time::claim_timestamp_text(now, offset)
    }
}

/// What the user is told of a claim of their own.
#[verifier::opaque]
pub open spec fn is_own_claim_told(d: Seq<Turn>, claim: ClaimInfoView, message: Seq<char>) -> bool {
    let user = "Your user ("@ + (claim.claimee_id.user + "@"@ + claim.claimee_id.machine)
        + ") created its claim "@;
    match claim.claimed_at_utc_unix_seconds {
        Some(at) => d.len() == 1 && exists|elapsed: Seq<char>|
            #[trigger] is_elapsed(d[0], at, elapsed) && message == user + elapsed + " ago."@,
        None => d.len() == 0 && message == user + "at an unknown time."@,
    }
}

pub(crate) proof fn lemma_own_claim_told(d: Seq<Turn>, claim: ClaimInfoView, message: Seq<char>)
    requires
        dialogue::succeeds(
            |log: Seq<Reply>| status::current_user_claim_message_run(claim, log),
            d,
            message,
        ),
    ensures
        is_own_claim_told(d, claim, message),
{
    reveal(is_own_claim_told);
    dialogue::lemma_replies();
    transcripts::lemma_steps(
        |log: Seq<Reply>| status::current_user_claim_message_run(claim, log),
        d,
        message,
    );
    match claim.claimed_at_utc_unix_seconds {
        Some(at) => {
            let elapsed = time::duration_text(
                time::elapsed_seconds(d[0].reply->Clock_0, at),
            );
            assert(is_elapsed(d[0], at, elapsed));
        },
        None => {},
    }
}

/// Since when a session is claimed.
#[verifier::opaque]
pub open spec fn is_duration_told(d: Seq<Turn>, claim: ClaimInfoView, message: Seq<char>) -> bool {
    match claim.claimed_at_utc_unix_seconds {
        Some(at) => d.len() == 2 && exists|timestamp: Seq<char>, elapsed: Seq<char>|
            #[trigger] is_local_time(d[0], at, timestamp) && #[trigger] is_elapsed(
                d[1],
                at,
                elapsed,
            ) && message == "Claimed since "@ + timestamp + " ("@ + elapsed + " ago)."@,
        None => d.len() == 0 && message == "Claimed for an unknown duration."@,
    }
}

pub(crate) proof fn lemma_duration_told(d: Seq<Turn>, claim: ClaimInfoView, message: Seq<char>)
    requires
        dialogue::succeeds(
            |log: Seq<Reply>| status::claim_duration_run(claim, log),
            d,
            message,
        ),
    ensures
        is_duration_told(d, claim, message),
{
    reveal(is_duration_told);
    dialogue::lemma_replies();
    transcripts::lemma_steps(
        |log: Seq<Reply>| status::claim_duration_run(claim, log),
        d,
        message,
    );
    match claim.claimed_at_utc_unix_seconds {
        Some(at) => {
            let timestamp = if time::has_date(at) {
                time::claim_timestamp_text(at, d[0].reply->Offset_0)
            } else {
                time::claim_timestamp_text(d[0].reply->LocalNow_0, d[0].reply->LocalNow_1)
            };
            let elapsed = time::duration_text(
                time::elapsed_seconds(d[1].reply->Clock_0, at),
            );
            assert(is_local_time(d[0], at, timestamp));
            assert(is_elapsed(d[1], at, elapsed));
        },
        None => {},
    }
}

/// What is said of the claim of a session: where there is none, how to work on it; of one's
/// own, since when it is and how to give it up; else whose it is and since when.
#[verifier::opaque]
pub open spec fn is_claim_told(
    d: Seq<Turn>,
    claim: Option<ClaimInfoView>,
    message: Seq<char>,
    own: bool,
    k: int,
    inner: Seq<char>,
) -> bool {
    match claim {
        Some(claim) => {
            &&& 0 <= k <= d.len()
            &&& is_own_check(d.take(k), claim.claimee_id, own)
            &&& if own {
                &&& is_own_claim_told(d.skip(k), claim, inner)
                &&& message == inner + "\nTo unclaim the current session, run "@ + (
                "\x1b[34m"@ + "jist unclaim"@ + "\x1b[0m"@) + "."@
            } else {
                &&& is_duration_told(d.skip(k), claim, inner)
                &&& message == "This session is "@ + ("\x1b[31m"@ + "claimed"@ + "\x1b[0m"@)
                    + " by another developer: "@ + (claim.claimee_id.user + "@"@
                    + claim.claimee_id.machine) + ".\n"@ + inner
            }
        },
        None => d.len() == 0 && message == "To work on this session, type "@ + ("\x1b[34m"@
            + "jist work"@ + "\x1b[0m"@) + "."@,
    }
}

pub(crate) proof fn lemma_claim_told(
    d: Seq<Turn>,
    claim: Option<ClaimInfoView>,
    message: Seq<char>,
) -> (at: (bool, int, Seq<char>))
    requires
        dialogue::succeeds(
            |log: Seq<Reply>| status::work_indicator_run(claim, log),
            d,
            message,
        ),
    ensures
        is_claim_told(d, claim, message, at.0, at.1, at.2),
{
    reveal(is_claim_told);
    let whole = |log: Seq<Reply>| status::work_indicator_run(claim, log);
    match claim {
        None => {
            dialogue::lemma_replies();
            transcripts::lemma_steps(whole, d, message);
            (false, 0, Seq::empty())
        },
        Some(claim) => {
            let first = |log: Seq<Reply>|
                claim::is_known_current_setup_run(claim.claimee_id, log);
            assert forall|log: Seq<Reply>, more: Seq<Reply>| #[trigger]
                replay::replays(first, log, more) by {
                replay::lemma_is_known_current_setup(claim.claimee_id, log, more);
            }
            let told = |text: Seq<char>, log: Seq<Reply>|
                Run::Done(
                    text + "\nTo unclaim the current session, run "@ + style::blue(
                        "jist unclaim"@,
                    ) + "."@,
                    log,
                );
            let other = |duration: Seq<char>, log: Seq<Reply>|
                Run::Done(
                    "This session is "@ + style::red("claimed"@)
                        + " by another developer: "@ + claim::claimee_text(claim.claimee_id)
                        + ".\n"@ + duration,
                    log,
                );
            let next = |own: bool, log: Seq<Reply>|
                if own {
                    status::current_user_claim_message_run(claim, log).and_then(told)
                } else {
                    status::claim_duration_run(claim, log).and_then(other)
                };
            let cut = dialogue::lemma_split(whole, first, next, d, message);
            let own = cut.1;
            let k = cut.0;
            lemma_own_check(d.take(k), claim.claimee_id, own);
            let then = |log: Seq<Reply>| next(own, log);
            let inner = if own {
                let second = |log: Seq<Reply>|
                    status::current_user_claim_message_run(claim, log);
                assert forall|log: Seq<Reply>, more: Seq<Reply>| #[trigger]
                    replay::replays(second, log, more) by {
                    replay::lemma_claim_message(claim, log, more);
                }
                let inner = dialogue::lemma_mapped(then, second, told, d.skip(k), message);
                lemma_own_claim_told(d.skip(k), claim, inner);
                inner
            } else {
                let second = |log: Seq<Reply>| status::claim_duration_run(claim, log);
                assert forall|log: Seq<Reply>, more: Seq<Reply>| #[trigger]
                    replay::replays(second, log, more) by {
                    replay::lemma_claim_duration(claim, log, more);
                }
                let inner = dialogue::lemma_mapped(then, second, other, d.skip(k), message);
                lemma_duration_told(d.skip(k), claim, inner);
                inner
            };
            (own, k, inner)
        },
    }
}

/// The first line of the page on a session.
#[verifier::opaque]
pub open spec fn is_banner(
    d: Seq<Turn>,
    name: Seq<char>,
    short_base: Seq<char>,
    claim: Option<ClaimInfoView>,
    banner: Seq<char>,
    own: bool,
) -> bool {
    let named = "\x1b[32m*"@ + name + "\x1b[0m"@;
    let based = "\x1b[34m"@ + short_base + "\x1b[0m"@;
    &&& match claim {
        Some(claim) => is_own_check(d, claim.claimee_id, own),
        None => d.len() == 0 && !own,
    }
    &&& banner == if own {
        "You have "@ + ("\x1b[32m"@ + "claimed"@ + "\x1b[0m"@) + " session "@ + named
            + ", based on "@ + based + "."@
    } else {
        "You are checked out on session "@ + named + ", based on "@ + based + "."@
    }
}

pub(crate) proof fn lemma_banner(
    d: Seq<Turn>,
    session: SessionInfoView,
    short_base: Seq<char>,
    claim: Option<ClaimInfoView>,
    banner: Seq<char>,
) -> (own: bool)
    requires
        dialogue::succeeds(
            |log: Seq<Reply>|
                status::working_commit_banner_run(session, short_base, claim, log),
            d,
            banner,
        ),
    ensures
        is_banner(d, session.name, short_base, claim, banner, own),
{
    reveal(is_banner);
    let whole = |log: Seq<Reply>|
        status::working_commit_banner_run(session, short_base, claim, log);
    let first = |log: Seq<Reply>| status::is_own_claim_run(claim, log);
    assert forall|log: Seq<Reply>, more: Seq<Reply>| #[trigger]
        replay::replays(first, log, more) by {
        replay::lemma_own_claim(claim, log, more);
    }
    let own = dialogue::lemma_mapped(
        whole,
        first,
        |own: bool, log: Seq<Reply>|
            Run::Done(status::banner_text(session.name, short_base, own), log),
        d,
        banner,
    );
    match claim {
        Some(claim) => {
            let check = |log: Seq<Reply>|
                claim::is_known_current_setup_run(claim.claimee_id, log);
            dialogue::lemma_same(first, check, d, own);
            lemma_own_check(d, claim.claimee_id, own);
        },
        None => {
            dialogue::lemma_replies();
            transcripts::lemma_steps(first, d, own);
        },
    }
    own
}

/// Git was asked which files differ from the remote branch, which are untracked, and which
/// the remote branch holds.
#[verifier::opaque]
pub open spec fn is_counting(d: Seq<Turn>, branch: Seq<char>, counted: SyncStatusView) -> bool {
    &&& d.len() == 3
    &&& dialogue::answered(
        d[0],
        dialogue::git_query(
            seq!["diff"@, "--name-only"@, "refs/remotes/jist/"@ + branch, "--"@],
        ),
    )
    &&& dialogue::answered(
        d[1],
        dialogue::git_query(seq!["ls-files"@, "--others"@, "--exclude-standard"@]),
    )
    &&& dialogue::answered(
        d[2],
        dialogue::git_query(
            seq!["ls-tree"@, "-r"@, "--name-only"@, "refs/remotes/jist/"@ + branch],
        ),
    )
    &&& counted == sync::sync_status_of(
        dialogue::output_of(d[0].reply),
        dialogue::output_of(d[1].reply),
        dialogue::output_of(d[2].reply),
    )
}

/// The number of files, in words.
pub open spec fn files(count: nat) -> Seq<char> {
    text::decimal(count) + " "@ + if count == 1 {
        "file"@
    } else {
        "files"@
    } + " "@ + if count == 1 {
        "is"@
    } else {
        "are"@
    } + " "@
}

/// The sentences on synchronization.
pub open spec fn sync_sentences(unsynced: nat, total: nat) -> Seq<char> {
    if unsynced == 0 {
        "All "@ + files(total) + ("\x1b[32m"@ + "fully synced"@ + "\x1b[0m"@) + "."@
    } else {
        files(unsynced) + ("\x1b[31m"@ + "unsynchronized"@ + "\x1b[0m"@) + ".\n"@ + files(
            if total > unsynced {
                (total - unsynced) as nat
            } else {
                0
            },
        ) + ("\x1b[32m"@ + "synchronized"@ + "\x1b[0m"@) + "."@
    }
}

/// The sentences on synchronization say how many files differ from the remote branch, and
/// how many of the others there are.
pub proof fn law_sync_sentences(counted: SyncStatusView)
    ensures
        sync::session_sync_text(counted) == sync_sentences(
            counted.unsynced_files,
            counted.total_files,
        ),
{
    reveal_strlit("file");
    reveal_strlit("session");
    assert("file"@.len() != "session"@.len());
}

/// The minutes and seconds that are left until `deadline`, in words.
pub open spec fn countdown(deadline: u128, now: u64) -> Seq<char> {
    let seconds: nat = if deadline > now {
        ((deadline - now) / 1_000_000_000) as nat
    } else {
        0
    };
    let rest = seconds % 60;
    "Sync scheduled in "@ + text::decimal(seconds / 60) + ":"@ + if rest < 10 {
        seq!['0', (48 + rest) as char]
    } else {
        text::decimal(rest)
    }
}

/// The part of a page on synchronization, with the time that is left until the next push
/// where one is planned.
#[verifier::opaque]
pub open spec fn is_section(
    d: Seq<Turn>,
    counted: SyncStatusView,
    push_deadline: Option<u128>,
    section: Seq<char>,
) -> bool {
    let sentences = sync_sentences(counted.unsynced_files, counted.total_files);
    match push_deadline {
        Some(deadline) => {
            &&& d.len() == 1
            &&& d[0].request == RequestView::Monotonic
            &&& d[0].reply matches Reply::Monotonic(now) && section == sentences + "\n"@
                + countdown(deadline, now)
        },
        None => d.len() == 0 && section == sentences,
    }
}

pub(crate) proof fn lemma_section(
    d: Seq<Turn>,
    counted: SyncStatusView,
    push_deadline: Option<u128>,
    section: Seq<char>,
)
    requires
        dialogue::succeeds(
            |log: Seq<Reply>| status::sync_section_run(counted, push_deadline, log),
            d,
            section,
        ),
    ensures
        is_section(d, counted, push_deadline, section),
{
    reveal(is_section);
    dialogue::lemma_replies();
    law_sync_sentences(counted);
    transcripts::lemma_steps(
        |log: Seq<Reply>| status::sync_section_run(counted, push_deadline, log),
        d,
        section,
    );
}

/// What the page on a session is made of.
pub struct SessionPage {
    pub counted: SyncStatusView,
    pub claim: Option<ClaimInfoView>,
    /// The first line, the end of what it took, and whether the claim is the user's own.
    pub banner: Seq<char>,
    pub bannered: int,
    pub own: bool,
    /// What is said of the claim, the end of what that took, and its parts.
    pub told: Seq<char>,
    pub telling: int,
    pub told_own: bool,
    pub told_check: int,
    pub told_inner: Seq<char>,
    pub section: Seq<char>,
}

/// The page on a session: `gh` names the repository, git the commit that the session is
/// based on, the files that differ and the metadata on the remote branch.
#[verifier::opaque]
pub open spec fn is_session_page(
    d: Seq<Turn>,
    session: SessionInfoView,
    push_deadline: Option<u128>,
    page: Seq<char>,
    p: SessionPage,
) -> bool {
    let branch = "jist-"@ + session::escaped(session.name);
    let original = dialogue::output_of(d[0].reply);
    &&& 6 <= p.bannered <= p.telling <= d.len()
    &&& dialogue::answered(
        d[0],
        dialogue::gh_query(
            seq![
                "repo"@,
                "view"@,
                "--json"@,
                "nameWithOwner"@,
                "--jq"@,
                ".nameWithOwner"@,
            ],
        ),
    )
    &&& dialogue::answered(
        d[1],
        dialogue::git_query(seq!["rev-parse"@, "--short"@, session.base_commit]),
    )
    &&& is_counting(d.subrange(2, 5), branch, p.counted)
    &&& transcripts::is_metadata(d[5], branch)
    &&& claim::claim_in(dialogue::output_of(d[5].reply)) == Ok::<
        Option<ClaimInfoView>,
        Seq<char>,
    >(p.claim)
    &&& is_banner(
        d.subrange(6, p.bannered),
        session.name,
        dialogue::output_of(d[1].reply),
        p.claim,
        p.banner,
        p.own,
    )
    &&& is_claim_told(
        d.subrange(p.bannered, p.telling),
        p.claim,
        p.told,
        p.told_own,
        p.told_check,
        p.told_inner,
    )
    &&& is_section(d.skip(p.telling), p.counted, push_deadline, p.section)
    &&& text::split_once(original, '/') matches Some((owner, name)) && page == p.banner
        + "\nVisit "@ + ("\x1b[34;4m"@ + ("https://jisthub.com/"@ + owner + "/"@ + name
        + "/session/"@ + session::escaped(session.name)) + "\x1b[0m"@)
        + " for detailed information.\n\n"@ + p.section + "\n\n"@ + p.told + "\n"@
}

proof fn lemma_address(d: Seq<Turn>, session: SessionInfoView, address: (Seq<char>, Seq<char>))
    requires
        dialogue::succeeds(
            |log: Seq<Reply>| status::address_run(session, log),
            d,
            address,
        ),
    ensures
        d.len() == 2,
        dialogue::answered(
            d[0],
            dialogue::gh_query(
                seq![
                    "repo"@,
                    "view"@,
                    "--json"@,
                    "nameWithOwner"@,
                    "--jq"@,
                    ".nameWithOwner"@,
                ],
            ),
        ),
        dialogue::answered(
            d[1],
            dialogue::git_query(seq!["rev-parse"@, "--short"@, session.base_commit]),
        ),
        address.1 == dialogue::output_of(d[1].reply),
        text::split_once(dialogue::output_of(d[0].reply), '/') matches Some((owner, name))
            && address.0 == "https://jisthub.com/"@ + owner + "/"@ + name + "/session/"@
            + session::escaped(session.name),
{
    dialogue::lemma_words();
    dialogue::lemma_replies();
    transcripts::lemma_steps(
        |log: Seq<Reply>| status::address_run(session, log),
        d,
        address,
    );
}

proof fn lemma_condition(
    d: Seq<Turn>,
    session: SessionInfoView,
    condition: (SyncStatusView, Option<ClaimInfoView>),
)
    requires
        dialogue::succeeds(
            |log: Seq<Reply>| status::condition_run(session, log),
            d,
            condition,
        ),
    ensures
        d.len() == 4,
        is_counting(d.take(3), "jist-"@ + session::escaped(session.name), condition.0),
        transcripts::is_metadata(d[3], "jist-"@ + session::escaped(session.name)),
        claim::claim_in(dialogue::output_of(d[3].reply)) == Ok::<
            Option<ClaimInfoView>,
            Seq<char>,
        >(condition.1),
{
    reveal(is_counting);
    let branch = session::branch_of(session.name);
    let first = |log: Seq<Reply>| sync::sync_status_for_branch_run(branch, log);
    assert forall|log: Seq<Reply>, more: Seq<Reply>| #[trigger]
        replay::replays(first, log, more) by {
        replay::lemma_sync_status(branch, log, more);
    }
    let next = |status: SyncStatusView, log: Seq<Reply>|
        claim::remote_claim_info_run(branch, log).and_then(
            |claim: Option<ClaimInfoView>, log: Seq<Reply>| Run::Done((status, claim), log),
        );
    let cut = dialogue::lemma_split(
        |log: Seq<Reply>| status::condition_run(session, log),
        first,
        next,
        d,
        condition,
    );
    transcripts::law_sync_status_asks_git(branch, d.take(cut.0), cut.1);
    dialogue::lemma_words();
    dialogue::lemma_replies();
    transcripts::lemma_remote_ref(branch);
    let tail = d.skip(3);
    transcripts::lemma_steps(|log: Seq<Reply>| next(cut.1, log), tail, condition);
    assert(tail.len() == 1);
    assert(tail[0] == d[3]);
}

proof fn lemma_texts(
    d: Seq<Turn>,
    session: SessionInfoView,
    short_base: Seq<char>,
    claim: Option<ClaimInfoView>,
    texts: (Seq<char>, Seq<char>),
) -> (at: (int, bool, (bool, int, Seq<char>)))
    requires
        dialogue::succeeds(
            |log: Seq<Reply>| status::claim_texts_run(session, short_base, claim, log),
            d,
            texts,
        ),
    ensures
        0 <= at.0 <= d.len(),
        is_banner(d.take(at.0), session.name, short_base, claim, texts.0, at.1),
        is_claim_told(d.skip(at.0), claim, texts.1, at.2.0, at.2.1, at.2.2),
{
    let first = |log: Seq<Reply>|
        status::working_commit_banner_run(session, short_base, claim, log);
    assert forall|log: Seq<Reply>, more: Seq<Reply>| #[trigger]
        replay::replays(first, log, more) by {
        replay::lemma_own_claim(claim, log, more);
    }
    let next = |banner: Seq<char>, log: Seq<Reply>|
        status::work_indicator_run(claim, log).and_then(
            |indicator: Seq<char>, log: Seq<Reply>| Run::Done((banner, indicator), log),
        );
    let cut = dialogue::lemma_split(
        |log: Seq<Reply>| status::claim_texts_run(session, short_base, claim, log),
        first,
        next,
        d,
        texts,
    );
    let banner = cut.1;
    let own = lemma_banner(d.take(cut.0), session, short_base, claim, banner);
    let second = |log: Seq<Reply>| status::work_indicator_run(claim, log);
    assert forall|log: Seq<Reply>, more: Seq<Reply>| #[trigger]
        replay::replays(second, log, more) by {
        replay::lemma_indicator(claim, log, more);
    }
    let told = dialogue::lemma_mapped(
        |log: Seq<Reply>| next(banner, log),
        second,
        |indicator: Seq<char>, log: Seq<Reply>| Run::Done((banner, indicator), log),
        d.skip(cut.0),
        texts,
    );
    let parts = lemma_claim_told(d.skip(cut.0), claim, told);
    (cut.0, own, parts)
}

proof fn lemma_status_page(
    d: Seq<Turn>,
    session: SessionInfoView,
    push_deadline: Option<u128>,
    url: Seq<char>,
    short_base: Seq<char>,
    counted: SyncStatusView,
    claim: Option<ClaimInfoView>,
    page: Seq<char>,
) -> (p: SessionPage)
    requires
        dialogue::succeeds(
            |log: Seq<Reply>|
                status::status_page_run(
                    session,
                    push_deadline,
                    url,
                    short_base,
                    counted,
                    claim,
                    log,
                ),
            d,
            page,
        ),
    ensures
        p.counted == counted,
        p.claim == claim,
        0 <= p.bannered <= p.telling <= d.len(),
        is_banner(d.take(p.bannered), session.name, short_base, claim, p.banner, p.own),
        is_claim_told(
            d.subrange(p.bannered, p.telling),
            claim,
            p.told,
            p.told_own,
            p.told_check,
            p.told_inner,
        ),
        is_section(d.skip(p.telling), counted, push_deadline, p.section),
        page == p.banner + "\nVisit "@ + ("\x1b[34;4m"@ + url + "\x1b[0m"@)
            + " for detailed information.\n\n"@ + p.section + "\n\n"@ + p.told + "\n"@,
{
    let first = |log: Seq<Reply>| status::claim_texts_run(session, short_base, claim, log);
    assert forall|log: Seq<Reply>, more: Seq<Reply>| #[trigger]
        replay::replays(first, log, more) by {
        replay::lemma_claim_texts(session, short_base, claim, log, more);
    }
    let next = |texts: (Seq<char>, Seq<char>), log: Seq<Reply>|
        status::sync_section_run(counted, push_deadline, log).and_then(
            |section: Seq<char>, log: Seq<Reply>|
                Run::Done(
                    texts.0 + "\nVisit "@ + style::linked(url)
                        + " for detailed information.\n\n"@ + section + "\n\n"@ + texts.1
                        + "\n"@,
                    log,
                ),
        );
    let cut = dialogue::lemma_split(
        |log: Seq<Reply>|
            status::status_page_run(
                session,
                push_deadline,
                url,
                short_base,
                counted,
                claim,
                log,
            ),
        first,
        next,
        d,
        page,
    );
    let telling = cut.0;
    let texts = cut.1;
    let front = d.take(telling);
    let at = lemma_texts(front, session, short_base, claim, texts);
    let second = |log: Seq<Reply>| status::sync_section_run(counted, push_deadline, log);
    assert forall|log: Seq<Reply>, more: Seq<Reply>| #[trigger]
        replay::replays(second, log, more) by {
        replay::lemma_section(counted, push_deadline, log, more);
    }
    let section = dialogue::lemma_mapped(
        |log: Seq<Reply>| next(texts, log),
        second,
        |section: Seq<char>, log: Seq<Reply>|
            Run::Done(
                texts.0 + "\nVisit "@ + style::linked(url)
                    + " for detailed information.\n\n"@ + section + "\n\n"@ + texts.1 + "\n"@,
                log,
            ),
        d.skip(telling),
        page,
    );
    lemma_section(d.skip(telling), counted, push_deadline, section);
    assert(front.take(at.0) =~= d.take(at.0));
    assert(front.skip(at.0) =~= d.subrange(at.0, telling));
    SessionPage {
        counted,
        claim,
        banner: texts.0,
        bannered: at.0,
        own: at.1,
        told: texts.1,
        telling,
        told_own: at.2.0,
        told_check: at.2.1,
        told_inner: at.2.2,
        section,
    }
}

#[verifier::spinoff_prover]
proof fn lemma_addressed_page(
    d: Seq<Turn>,
    session: SessionInfoView,
    push_deadline: Option<u128>,
    url: Seq<char>,
    short_base: Seq<char>,
    page: Seq<char>,
) -> (p: SessionPage)
    requires
        dialogue::succeeds(
            |log: Seq<Reply>|
                status::addressed_page_run(session, push_deadline, url, short_base, log),
            d,
            page,
        ),
    ensures
        4 <= p.bannered <= p.telling <= d.len(),
        is_counting(d.take(3), "jist-"@ + session::escaped(session.name), p.counted),
        transcripts::is_metadata(d[3], "jist-"@ + session::escaped(session.name)),
        claim::claim_in(dialogue::output_of(d[3].reply)) == Ok::<
            Option<ClaimInfoView>,
            Seq<char>,
        >(p.claim),
        is_banner(d.subrange(4, p.bannered), session.name, short_base, p.claim, p.banner, p.own),
        is_claim_told(
            d.subrange(p.bannered, p.telling),
            p.claim,
            p.told,
            p.told_own,
            p.told_check,
            p.told_inner,
        ),
        is_section(d.skip(p.telling), p.counted, push_deadline, p.section),
        page == p.banner + "\nVisit "@ + ("\x1b[34;4m"@ + url + "\x1b[0m"@)
            + " for detailed information.\n\n"@ + p.section + "\n\n"@ + p.told + "\n"@,
{
    let first = |log: Seq<Reply>| status::condition_run(session, log);
    assert forall|log: Seq<Reply>, more: Seq<Reply>| #[trigger]
        replay::replays(first, log, more) by {
        replay::lemma_condition(session, log, more);
    }
    let cut = dialogue::lemma_split(
        |log: Seq<Reply>|
            status::addressed_page_run(session, push_deadline, url, short_base, log),
        first,
        |condition: (SyncStatusView, Option<ClaimInfoView>), log: Seq<Reply>|
            status::status_page_run(
                session,
                push_deadline,
                url,
                short_base,
                condition.0,
                condition.1,
                log,
            ),
        d,
        page,
    );
    lemma_condition(d.take(cut.0), session, cut.1);
    let end = d.skip(4);
    let p = lemma_status_page(
        end,
        session,
        push_deadline,
        url,
        short_base,
        cut.1.0,
        cut.1.1,
        page,
    );
    assert(d.take(4).take(3) =~= d.take(3));
    assert(d.take(4)[3] == d[3]);
    assert(end.take(p.bannered) =~= d.subrange(4, 4 + p.bannered));
    assert(end.subrange(p.bannered, p.telling) =~= d.subrange(
        4 + p.bannered,
        4 + p.telling,
    ));
    assert(end.skip(p.telling) =~= d.skip(4 + p.telling));
    SessionPage { bannered: 4 + p.bannered, telling: 4 + p.telling, ..p }
}

/// Whenever the page on a session is shown, it says what `gh`, git and the clocks answered:
/// the commit that the session is based on, the files that differ from its remote branch,
/// and the claim that the metadata there states.
#[verifier::spinoff_prover]
pub proof fn law_session_page_transcript(
    d: Seq<Turn>,
    session: SessionInfoView,
    push_deadline: Option<u128>,
    page: Seq<char>,
) -> (p: SessionPage)
    requires
        dialogue::succeeds(
            |log: Seq<Reply>| status::working_commit_status_run(session, push_deadline, log),
            d,
            page,
        ),
    ensures
        is_session_page(d, session, push_deadline, page, p),
{
    reveal(is_session_page);
    let first = |log: Seq<Reply>| status::address_run(session, log);
    assert forall|log: Seq<Reply>, more: Seq<Reply>| #[trigger]
        replay::replays(first, log, more) by {
        replay::lemma_address(session, log, more);
    }
    let cut = dialogue::lemma_split(
        |log: Seq<Reply>| status::working_commit_status_run(session, push_deadline, log),
        first,
        |address: (Seq<char>, Seq<char>), log: Seq<Reply>|
            status::addressed_page_run(session, push_deadline, address.0, address.1, log),
        d,
        page,
    );
    lemma_address(d.take(cut.0), session, cut.1);
    let tail = d.skip(2);
    let p = lemma_addressed_page(tail, session, push_deadline, cut.1.0, cut.1.1, page);
    assert(tail.take(3) =~= d.subrange(2, 5));
    assert(tail[3] == d[5]);
    assert(d.take(2)[0] == d[0] && d.take(2)[1] == d[1]);
    assert(tail.subrange(4, p.bannered) =~= d.subrange(6, 2 + p.bannered));
    assert(tail.subrange(p.bannered, p.telling) =~= d.subrange(
        2 + p.bannered,
        2 + p.telling,
    ));
    assert(tail.skip(p.telling) =~= d.skip(2 + p.telling));
    SessionPage { bannered: 2 + p.bannered, telling: 2 + p.telling, ..p }
}

/// What a list says of one session, from the metadata on its remote branch and the clock.
pub open spec fn entry_text(
    read: Reply,
    clock: Reply,
    session: SessionInfoView,
    selected: Option<Seq<char>>,
) -> Seq<char> {
    let current = selected == Some(session.name);
    let claimed = claim::claim_in(dialogue::output_of(read)) matches Ok(Some(_));
    "  - "@ + (if current {
        "\x1b[32m*"@ + session.name + "\x1b[0m"@
    } else {
        session.name
    }) + " ("@ + ((if current {
        ("\x1b[32m"@ + "current session"@ + "\x1b[0m"@) + ", "@
    } else {
        Seq::empty()
    }) + (if claimed {
        ("\x1b[32m"@ + "claimed"@ + "\x1b[0m"@) + ", "@
    } else {
        Seq::empty()
    }) + ("last modified "@ + (time::duration_text(
        time::elapsed_seconds(clock->Clock_0, session.modified_at_unix_seconds),
    ) + " ago"@))) + ")\n"@
}

/// The metadata of the session at `i` was read, and then the clock.
pub open spec fn is_entry_asked(d: Seq<Turn>, sessions: Seq<SessionInfoView>, i: int) -> bool {
    &&& transcripts::is_metadata(d[2 * i], "jist-"@ + session::escaped(sessions[i].name))
    &&& claim::claim_in(dialogue::output_of(d[2 * i].reply)) is Ok
    &&& d[2 * i + 1].request == RequestView::Clock
    &&& d[2 * i + 1].reply is Clock
}

/// The entries of a list, one after the other.
pub open spec fn entries_text(
    d: Seq<Turn>,
    sessions: Seq<SessionInfoView>,
    selected: Option<Seq<char>>,
) -> Seq<char>
    decreases sessions.len(),
{
    if sessions.len() == 0 {
        Seq::empty()
    } else {
        entries_text(d, sessions.drop_last(), selected) + entry_text(
            d[2 * (sessions.len() - 1)].reply,
            d[2 * (sessions.len() - 1) + 1].reply,
            sessions.last(),
            selected,
        )
    }
}

proof fn lemma_entry(
    d: Seq<Turn>,
    session: SessionInfoView,
    selected: Option<Seq<char>>,
    entry: Seq<char>,
)
    requires
        dialogue::succeeds(
            |log: Seq<Reply>| status::list_entry_run(session, selected, log),
            d,
            entry,
        ),
    ensures
        d.len() == 2,
        is_entry_asked(d, seq![session], 0),
        entry == entry_text(d[0].reply, d[1].reply, session, selected),
{
    dialogue::lemma_words();
    dialogue::lemma_replies();
    transcripts::lemma_remote_ref(session::branch_of(session.name));
    transcripts::lemma_steps(
        |log: Seq<Reply>| status::list_entry_run(session, selected, log),
        d,
        entry,
    );
}

/// The entries depend only on the turns that are about them.
pub(crate) proof fn lemma_entries_of(
    d: Seq<Turn>,
    more: Seq<Turn>,
    sessions: Seq<SessionInfoView>,
    selected: Option<Seq<char>>,
)
    requires
        d.len() >= 2 * sessions.len(),
        more.len() >= d.len(),
        d == more.take(d.len() as int),
    ensures
        entries_text(d, sessions, selected) == entries_text(more, sessions, selected),
    decreases sessions.len(),
{
    if sessions.len() > 0 {
        lemma_entries_of(d, more, sessions.drop_last(), selected);
        let n = 2 * (sessions.len() - 1);
        assert(d[n] == more[n]);
        assert(d[n + 1] == more[n + 1]);
    }
}

proof fn lemma_entries(
    done: Seq<Turn>,
    listed: Seq<SessionInfoView>,
    d: Seq<Turn>,
    rest: Seq<SessionInfoView>,
    selected: Option<Seq<char>>,
    list: Seq<char>,
)
    requires
        done.len() == 2 * listed.len(),
        forall|i: int| 0 <= i < listed.len() ==> #[trigger] is_entry_asked(done, listed, i),
        dialogue::succeeds(
            |log: Seq<Reply>|
                status::list_entries_run(
                    entries_text(done, listed, selected),
                    rest,
                    selected,
                    log,
                ),
            d,
            list,
        ),
    ensures
        d.len() == 2 * rest.len(),
        forall|i: int|
            0 <= i < listed.len() + rest.len() ==> #[trigger] is_entry_asked(
                done + d,
                listed + rest,
                i,
            ),
        list == entries_text(done + d, listed + rest, selected),
    decreases rest.len(),
{
    let shown = entries_text(done, listed, selected);
    let whole = |log: Seq<Reply>| status::list_entries_run(shown, rest, selected, log);
    if rest.len() == 0 {
        dialogue::lemma_replies();
        transcripts::lemma_steps(whole, d, list);
        assert(done + d =~= done);
        assert(listed + rest =~= listed);
    } else {
        let first = |log: Seq<Reply>| status::list_entry_run(rest[0], selected, log);
        assert forall|log: Seq<Reply>, more: Seq<Reply>| #[trigger]
            replay::replays(first, log, more) by {
            replay::lemma_entry(rest[0], selected, log, more);
        }
        let next = |entry: Seq<char>, log: Seq<Reply>|
            status::list_entries_run(shown + entry, rest.skip(1), selected, log);
        let cut = dialogue::lemma_split(whole, first, next, d, list);
        let head = d.take(cut.0);
        lemma_entry(head, rest[0], selected, cut.1);
        let now = done + head;
        let named = listed.push(rest[0]);
        let n = listed.len() as int;
        assert(named.drop_last() =~= listed);
        assert(done =~= now.take(done.len() as int));
        lemma_entries_of(done, now, listed, selected);
        assert(now[2 * n] == head[0]);
        assert(now[2 * n + 1] == head[1]);
        assert(entries_text(now, named, selected) == shown + cut.1);
        assert forall|i: int| 0 <= i < named.len() implies #[trigger] is_entry_asked(
            now,
            named,
            i,
        ) by {
            if i < n {
                assert(is_entry_asked(done, listed, i));
                assert(now[2 * i] == done[2 * i]);
                assert(now[2 * i + 1] == done[2 * i + 1]);
            } else {
                assert(is_entry_asked(head, seq![rest[0]], 0));
            }
        }
        lemma_entries(now, named, d.skip(2), rest.skip(1), selected, list);
        assert(now + d.skip(2) =~= done + d);
        assert(named + rest.skip(1) =~= listed + rest);
    }
}

/// A list of sessions: an entry for each of the first ones, as far as the limit allows, and
/// the number of the others.
#[verifier::opaque]
pub open spec fn is_list(
    d: Seq<Turn>,
    sessions: Seq<SessionInfoView>,
    limit: Option<usize>,
    selected: Option<Seq<char>>,
    list: Seq<char>,
) -> bool {
    let n = match limit {
        Some(limit) => if limit < sessions.len() {
            limit as int
        } else {
            sessions.len() as int
        },
        None => sessions.len() as int,
    };
    let hidden = (sessions.len() - n) as nat;
    &&& d.len() == 2 * n
    &&& forall|i: int| 0 <= i < n ==> #[trigger] is_entry_asked(d, sessions, i)
    &&& list == if sessions.len() == 0 {
        "  <no sessions>\n"@
    } else {
        entries_text(d, sessions.take(n), selected) + if hidden == 0 {
            Seq::empty()
        } else {
            "    +"@ + text::decimal(hidden) + " older "@ + (if hidden == 1 {
                "session"@
            } else {
                "sessions"@
            }) + "\n"@
        }
    }
}

/// Whenever sessions are listed, the metadata of each that is shown was read from its remote
/// branch, and no others; a session counts as claimed where the metadata states a claim.
pub proof fn law_list_transcript(
    d: Seq<Turn>,
    sessions: Seq<SessionInfoView>,
    limit: Option<usize>,
    selected: Option<Seq<char>>,
    list: Seq<char>,
)
    requires
        dialogue::succeeds(
            |log: Seq<Reply>| status::session_list_run(sessions, limit, selected, log),
            d,
            list,
        ),
    ensures
        is_list(d, sessions, limit, selected, list),
{
    reveal(is_list);
    let whole = |log: Seq<Reply>| status::session_list_run(sessions, limit, selected, log);
    if sessions.len() == 0 {
        dialogue::lemma_replies();
        transcripts::lemma_steps(whole, d, list);
    } else {
        let n = status::shown_count(sessions.len(), limit) as int;
        let visible = sessions.take(n);
        let none = Seq::<Turn>::empty();
        let nobody = Seq::<SessionInfoView>::empty();
        let first = |log: Seq<Reply>|
            status::list_entries_run(Seq::empty(), visible, selected, log);
        assert forall|log: Seq<Reply>, more: Seq<Reply>| #[trigger]
            replay::replays(first, log, more) by {
            replay::lemma_entries(Seq::empty(), visible, selected, log, more);
        }
        let entries = dialogue::lemma_mapped(
            whole,
            first,
            |entries: Seq<char>, log: Seq<Reply>|
                Run::Done(
                    entries + status::hidden_text((sessions.len() - n) as nat),
                    log,
                ),
            d,
            list,
        );
        assert(entries_text(none, nobody, selected) == Seq::<char>::empty());
        lemma_entries(none, nobody, d, visible, selected, entries);
        assert(none + d =~= d);
        assert(nobody + visible =~= visible);
        assert forall|i: int| 0 <= i < n implies #[trigger] is_entry_asked(d, sessions, i) by {
            assert(is_entry_asked(d, visible, i));
        }
    }
}

proof fn lemma_all_among(d: Seq<Turn>, sessions: Seq<SessionInfoView>, page: Seq<char>) -> (at: (
    int,
    Option<Seq<char>>,
    Seq<char>,
))
    requires
        dialogue::succeeds(
            |log: Seq<Reply>| status::all_among_run(sessions, log),
            d,
            page,
        ),
    ensures
        0 <= at.0 <= d.len(),
        watching::is_checked_out(d.take(at.0), sessions, at.1),
        is_list(d.skip(at.0), sessions, None, at.1, at.2),
        page == "Sessions:\n"@ + at.2,
{
    let second = |log: Seq<Reply>| session::checked_out_among_run(sessions, log);
    assert forall|log: Seq<Reply>, more: Seq<Reply>| #[trigger]
        replay::replays(second, log, more) by {
        replay::lemma_checked_out(sessions, log, more);
    }
    let next = |selected: Option<Seq<char>>, log: Seq<Reply>|
        status::all_page_run(sessions, selected, log);
    let cut = dialogue::lemma_split(
        |log: Seq<Reply>| status::all_among_run(sessions, log),
        second,
        next,
        d,
        page,
    );
    let selected = cut.1;
    watching::lemma_checked_out(d.take(cut.0), sessions, selected);
    let end = d.skip(cut.0);
    let third = |log: Seq<Reply>| status::session_list_run(sessions, None, selected, log);
    assert forall|log: Seq<Reply>, more: Seq<Reply>| #[trigger]
        replay::replays(third, log, more) by {
        replay::lemma_list(sessions, None, selected, log, more);
    }
    let list = dialogue::lemma_mapped(
        |log: Seq<Reply>| next(selected, log),
        third,
        |list: Seq<char>, log: Seq<Reply>| Run::Done("Sessions:\n"@ + list, log),
        end,
        page,
    );
    law_list_transcript(end, sessions, None, selected, list);
    (cut.0, selected, list)
}

/// Whenever all sessions are shown, they were listed from the remote, the one that is checked
/// out was found out, and each has its entry.
#[verifier::spinoff_prover]
pub proof fn law_all_sessions_transcript(d: Seq<Turn>, page: Seq<char>) -> (at: (
    int,
    int,
    Seq<SessionInfoView>,
    Option<Seq<char>>,
    Seq<char>,
))
    requires
        dialogue::succeeds(|log: Seq<Reply>| status::render_all_sessions_run(log), d, page),
    ensures
        0 <= at.0 <= at.1 <= d.len(),
        starting::is_listing(d.take(at.0), at.2),
        watching::is_checked_out(d.subrange(at.0, at.1), at.2, at.3),
        is_list(d.skip(at.1), at.2, None, at.3, at.4),
        page == "Sessions:\n"@ + at.4,
{
    let first = |log: Seq<Reply>| session::list_sessions_run(log);
    assert forall|log: Seq<Reply>, more: Seq<Reply>| #[trigger]
        replay::replays(first, log, more) by {
        replay::lemma_list_sessions(log, more);
    }
    let cut = dialogue::lemma_split(
        |log: Seq<Reply>| status::render_all_sessions_run(log),
        first,
        |sessions: Seq<SessionInfoView>, log: Seq<Reply>| status::all_among_run(sessions, log),
        d,
        page,
    );
    let listed = cut.0;
    let sessions = cut.1;
    starting::law_list_sessions_transcript(d.take(listed), sessions);
    let tail = d.skip(listed);
    let at = lemma_all_among(tail, sessions, page);
    let found = listed + at.0;
    assert(tail.take(at.0) =~= d.subrange(listed, found));
    assert(tail.skip(at.0) =~= d.skip(found));
    (listed, found, sessions, at.1, at.2)
}

/// What the page on where the user stands is made of.
pub struct StatusPage {
    pub sessions: Seq<SessionInfoView>,
    /// The session that is selected, and the end of what it took to find it.
    pub selected: Option<Seq<char>>,
    pub found: int,
    /// The end of what the first part took, and the parts.
    pub first: int,
    pub session_page: SessionPage,
    pub page: Seq<char>,
    pub list: Seq<char>,
    pub others: Seq<char>,
}

/// Where the user stands: the commit that is checked out has a short name, and belongs to a
/// session or does not.
#[verifier::opaque]
pub open spec fn is_standing(
    d: Seq<Turn>,
    sessions: Seq<SessionInfoView>,
    selected: Option<Seq<char>>,
) -> bool {
    &&& d.len() >= 2
    &&& dialogue::answered(
        d[1],
        dialogue::git_query(seq!["rev-parse"@, "--short"@, "HEAD"@]),
    )
    &&& watching::is_checked_out(seq![d[0]] + d.skip(2), sessions, selected)
}

/// The page for what is checked out, once the sessions are known. On the commit of a session
/// it is the page on that session with a list of all. On another commit it is a list of the
/// sessions that are based on it and one of the others.
#[verifier::opaque]
pub open spec fn is_status(d: Seq<Turn>, p: StatusPage, page: Seq<char>) -> bool {
    let head = dialogue::output_of(d[0].reply);
    &&& 2 <= p.found <= p.first <= d.len()
    &&& is_standing(d.take(p.found), p.sessions, p.selected)
    &&& if exists|i: int| watching::is_first_at(p.sessions, head, i) {
        &&& exists|i: int|
            #[trigger] watching::is_first_at(p.sessions, head, i) && is_session_page(
                d.subrange(p.found, p.first),
                p.sessions[i],
                None,
                p.page,
                p.session_page,
            )
        &&& is_list(d.skip(p.first), p.sessions, Some(3), p.selected, p.list)
        &&& page == p.page + "\n"@ + "Sessions:\n"@ + p.list
    } else {
        &&& is_list(
            d.subrange(p.found, p.first),
            p.sessions.filter(|session: SessionInfoView| session.base_commit == head),
            Some(3),
            p.selected,
            p.list,
        )
        &&& is_list(
            d.skip(p.first),
            p.sessions.filter(|session: SessionInfoView| session.base_commit != head),
            Some(3),
            p.selected,
            p.others,
        )
        &&& page == "You are on git commit "@ + ("\x1b[34m"@ + dialogue::output_of(d[1].reply)
            + "\x1b[0m"@) + ".\n"@ + "The following sessions are "@ + ("\x1b[32m"@
            + "based on this commit"@ + "\x1b[0m"@) + ":\n"@ + p.list + "\n"@
            + "Other sessions in this repository:\n"@ + p.others + "\n"@
            + "To display all sessions, run "@ + ("\x1b[34m"@ + "jist list"@ + "\x1b[0m"@)
            + ".\n"@ + "To work on a session, run "@ + ("\x1b[34m"@
            + "jist work <session name>"@ + "\x1b[0m"@) + ".\n"@
    }
}

proof fn lemma_standing(
    d: Seq<Turn>,
    sessions: Seq<SessionInfoView>,
    standing: (Seq<char>, Seq<char>, Option<Seq<char>>),
)
    requires
        dialogue::succeeds(
            |log: Seq<Reply>| status::standing_run(sessions, log),
            d,
            standing,
        ),
    ensures
        d.len() >= 2,
        is_standing(d, sessions, standing.2),
        standing.0 == dialogue::output_of(d[0].reply),
        standing.1 == dialogue::output_of(d[1].reply),
{
    reveal(is_standing);
    reveal(watching::is_checked_out);
    dialogue::lemma_words();
    dialogue::lemma_replies();
    transcripts::lemma_steps(
        |log: Seq<Reply>| status::standing_run(sessions, log),
        d,
        standing,
    );
    watching::lemma_first_at(sessions, dialogue::output_of(d[0].reply));
    watching::lemma_branch_name(dialogue::output_of(d[2].reply));
    let shown = seq![d[0]] + d.skip(2);
    assert(d.len() > 2 ==> shown[1] == d[2]);
}

proof fn lemma_on_session(
    d: Seq<Turn>,
    session: SessionInfoView,
    sessions: Seq<SessionInfoView>,
    selected: Option<Seq<char>>,
    page: Seq<char>,
) -> (at: (int, SessionPage, Seq<char>, Seq<char>))
    requires
        dialogue::succeeds(
            |log: Seq<Reply>| status::on_session_run(session, sessions, selected, log),
            d,
            page,
        ),
    ensures
        0 <= at.0 <= d.len(),
        is_session_page(d.take(at.0), session, None, at.2, at.1),
        is_list(d.skip(at.0), sessions, Some(3), selected, at.3),
        page == at.2 + "\n"@ + "Sessions:\n"@ + at.3,
{
    let first = |log: Seq<Reply>| status::working_commit_status_run(session, None, log);
    assert forall|log: Seq<Reply>, more: Seq<Reply>| #[trigger]
        replay::replays(first, log, more) by {
        replay::lemma_working_commit(session, None, log, more);
    }
    let next = |top: Seq<char>, log: Seq<Reply>|
        status::session_list_run(sessions, Some(3), selected, log).and_then(
            |list: Seq<char>, log: Seq<Reply>|
                Run::Done(top + "\n"@ + "Sessions:\n"@ + list, log),
        );
    let cut = dialogue::lemma_split(
        |log: Seq<Reply>| status::on_session_run(session, sessions, selected, log),
        first,
        next,
        d,
        page,
    );
    let top = cut.1;
    let parts = law_session_page_transcript(d.take(cut.0), session, None, top);
    let second = |log: Seq<Reply>|
        status::session_list_run(sessions, Some(3), selected, log);
    assert forall|log: Seq<Reply>, more: Seq<Reply>| #[trigger]
        replay::replays(second, log, more) by {
        replay::lemma_list(sessions, Some(3), selected, log, more);
    }
    let list = dialogue::lemma_mapped(
        |log: Seq<Reply>| next(top, log),
        second,
        |list: Seq<char>, log: Seq<Reply>|
            Run::Done(top + "\n"@ + "Sessions:\n"@ + list, log),
        d.skip(cut.0),
        page,
    );
    law_list_transcript(d.skip(cut.0), sessions, Some(3), selected, list);
    (cut.0, parts, top, list)
}

proof fn lemma_off_session(
    d: Seq<Turn>,
    head: Seq<char>,
    short_head: Seq<char>,
    sessions: Seq<SessionInfoView>,
    selected: Option<Seq<char>>,
    page: Seq<char>,
) -> (at: (int, Seq<char>, Seq<char>))
    requires
        dialogue::succeeds(
            |log: Seq<Reply>|
                status::off_session_run(head, short_head, sessions, selected, log),
            d,
            page,
        ),
    ensures
        0 <= at.0 <= d.len(),
        is_list(
            d.take(at.0),
            sessions.filter(|session: SessionInfoView| session.base_commit == head),
            Some(3),
            selected,
            at.1,
        ),
        is_list(
            d.skip(at.0),
            sessions.filter(|session: SessionInfoView| session.base_commit != head),
            Some(3),
            selected,
            at.2,
        ),
        page == "You are on git commit "@ + ("\x1b[34m"@ + short_head + "\x1b[0m"@) + ".\n"@
            + "The following sessions are "@ + ("\x1b[32m"@ + "based on this commit"@
            + "\x1b[0m"@) + ":\n"@ + at.1 + "\n"@ + "Other sessions in this repository:\n"@
            + at.2 + "\n"@ + "To display all sessions, run "@ + ("\x1b[34m"@ + "jist list"@
            + "\x1b[0m"@) + ".\n"@ + "To work on a session, run "@ + ("\x1b[34m"@
            + "jist work <session name>"@ + "\x1b[0m"@) + ".\n"@,
{
    let near = status::based_on(sessions, head);
    let far = status::not_based_on(sessions, head);
    let first = |log: Seq<Reply>| status::session_list_run(near, Some(3), selected, log);
    assert forall|log: Seq<Reply>, more: Seq<Reply>| #[trigger]
        replay::replays(first, log, more) by {
        replay::lemma_list(near, Some(3), selected, log, more);
    }
    let text = |based: Seq<char>, other: Seq<char>|
        "You are on git commit "@ + style::blue(short_head) + ".\n"@
            + "The following sessions are "@ + style::green("based on this commit"@)
            + ":\n"@ + based + "\n"@ + "Other sessions in this repository:\n"@ + other
            + "\n"@ + "To display all sessions, run "@ + style::blue("jist list"@)
            + ".\n"@ + "To work on a session, run "@ + style::blue(
            "jist work <session name>"@,
        ) + ".\n"@;
    let next = |based: Seq<char>, log: Seq<Reply>|
        status::session_list_run(far, Some(3), selected, log).and_then(
            |other: Seq<char>, log: Seq<Reply>| Run::Done(text(based, other), log),
        );
    let whole = |log: Seq<Reply>|
        status::off_session_run(head, short_head, sessions, selected, log);
    assert forall|log: Seq<Reply>| #[trigger] whole(log) == first(log).and_then(next) by {
        match first(log) {
            Run::Done(based, log) => {
                assert(next(based, log) == status::session_list_run(
                    far,
                    Some(3),
                    selected,
                    log,
                ).and_then(
                    |other: Seq<char>, log: Seq<Reply>| Run::Done(text(based, other), log),
                ));
            },
            _ => {},
        }
    }
    let cut = dialogue::lemma_split(whole, first, next, d, page);
    let based = cut.1;
    law_list_transcript(d.take(cut.0), near, Some(3), selected, based);
    let second = |log: Seq<Reply>| status::session_list_run(far, Some(3), selected, log);
    assert forall|log: Seq<Reply>, more: Seq<Reply>| #[trigger]
        replay::replays(second, log, more) by {
        replay::lemma_list(far, Some(3), selected, log, more);
    }
    let other = dialogue::lemma_mapped(
        |log: Seq<Reply>| next(based, log),
        second,
        |other: Seq<char>, log: Seq<Reply>| Run::Done(text(based, other), log),
        d.skip(cut.0),
        page,
    );
    law_list_transcript(d.skip(cut.0), far, Some(3), selected, other);
    (cut.0, based, other)
}

/// The page for the commit `head`, in its parts.
spec fn is_page_at(
    d: Seq<Turn>,
    head: Seq<char>,
    short_head: Seq<char>,
    p: StatusPage,
    first: int,
    page: Seq<char>,
) -> bool {
    &&& 0 <= first <= d.len()
    &&& match session::session_at(p.sessions, head) {
        Some(session) => {
            &&& is_session_page(d.take(first), session, None, p.page, p.session_page)
            &&& is_list(d.skip(first), p.sessions, Some(3), p.selected, p.list)
            &&& page == p.page + "\n"@ + "Sessions:\n"@ + p.list
        },
        None => {
            &&& is_list(
                d.take(first),
                p.sessions.filter(|session: SessionInfoView| session.base_commit == head),
                Some(3),
                p.selected,
                p.list,
            )
            &&& is_list(
                d.skip(first),
                p.sessions.filter(|session: SessionInfoView| session.base_commit != head),
                Some(3),
                p.selected,
                p.others,
            )
            &&& page == "You are on git commit "@ + ("\x1b[34m"@ + short_head + "\x1b[0m"@)
                + ".\n"@ + "The following sessions are "@ + ("\x1b[32m"@
                + "based on this commit"@ + "\x1b[0m"@) + ":\n"@ + p.list + "\n"@
                + "Other sessions in this repository:\n"@ + p.others + "\n"@
                + "To display all sessions, run "@ + ("\x1b[34m"@ + "jist list"@
                + "\x1b[0m"@) + ".\n"@ + "To work on a session, run "@ + ("\x1b[34m"@
                + "jist work <session name>"@ + "\x1b[0m"@) + ".\n"@
        },
    }
}

#[verifier::spinoff_prover]
proof fn lemma_page_at(
    d: Seq<Turn>,
    head: Seq<char>,
    short_head: Seq<char>,
    sessions: Seq<SessionInfoView>,
    selected: Option<Seq<char>>,
    page: Seq<char>,
) -> (at: (int, StatusPage))
    requires
        dialogue::succeeds(
            |log: Seq<Reply>| status::page_at_run(head, short_head, sessions, selected, log),
            d,
            page,
        ),
    ensures
        at.1.sessions == sessions,
        at.1.selected == selected,
        is_page_at(d, head, short_head, at.1, at.0, page),
{
    let whole = |log: Seq<Reply>|
        status::page_at_run(head, short_head, sessions, selected, log);
    match session::session_at(sessions, head) {
        Some(session) => {
            let same = |log: Seq<Reply>|
                status::on_session_run(session, sessions, selected, log);
            dialogue::lemma_same(whole, same, d, page);
            let at = lemma_on_session(d, session, sessions, selected, page);
            let p = StatusPage {
                sessions,
                selected,
                found: 0,
                first: 0,
                session_page: at.1,
                page: at.2,
                list: at.3,
                others: Seq::empty(),
            };
            (at.0, p)
        },
        None => {
            let same = |log: Seq<Reply>|
                status::off_session_run(head, short_head, sessions, selected, log);
            dialogue::lemma_same(whole, same, d, page);
            let at = lemma_off_session(d, head, short_head, sessions, selected, page);
            let p = StatusPage {
                sessions,
                selected,
                found: 0,
                first: 0,
                session_page: arbitrary(),
                page: Seq::empty(),
                list: at.1,
                others: at.2,
            };
            (at.0, p)
        },
    }
}

#[verifier::spinoff_prover]
proof fn lemma_status_parts(
    d: Seq<Turn>,
    found: int,
    head: Seq<char>,
    short_head: Seq<char>,
    first: int,
    p: StatusPage,
    page: Seq<char>,
)
    requires
        2 <= found <= d.len(),
        is_standing(d.take(found), p.sessions, p.selected),
        head == dialogue::output_of(d[0].reply),
        short_head == dialogue::output_of(d[1].reply),
        is_page_at(d.skip(found), head, short_head, p, first, page),
    ensures
        is_status(d, StatusPage { found, first: found + first, ..p }, page),
{
    reveal(is_status);
    let tail = d.skip(found);
    watching::lemma_first_at(p.sessions, head);
    assert(tail.take(first) =~= d.subrange(found, found + first));
    assert(tail.skip(first) =~= d.skip(found + first));
    match session::session_at(p.sessions, head) {
        Some(session) => {
            let i = choose|i: int|
                #[trigger] watching::is_first_at(p.sessions, head, i) && p.sessions[i] == session;
            assert(watching::is_first_at(p.sessions, head, i));
        },
        None => {},
    }
}

#[verifier::spinoff_prover]
proof fn lemma_status_among(d: Seq<Turn>, sessions: Seq<SessionInfoView>, page: Seq<char>) -> (p:
    StatusPage)
    requires
        dialogue::succeeds(
            |log: Seq<Reply>| status::status_among_run(sessions, log),
            d,
            page,
        ),
    ensures
        p.sessions == sessions,
        is_status(d, p, page),
{
    let first = |log: Seq<Reply>| status::standing_run(sessions, log);
    assert forall|log: Seq<Reply>, more: Seq<Reply>| #[trigger]
        replay::replays(first, log, more) by {
        replay::lemma_standing(sessions, log, more);
    }
    let cut = dialogue::lemma_split(
        |log: Seq<Reply>| status::status_among_run(sessions, log),
        first,
        |standing: (Seq<char>, Seq<char>, Option<Seq<char>>), log: Seq<Reply>|
            status::page_at_run(standing.0, standing.1, sessions, standing.2, log),
        d,
        page,
    );
    let found = cut.0;
    lemma_standing(d.take(found), sessions, cut.1);
    assert(d.take(found)[0] == d[0] && d.take(found)[1] == d[1]);
    let at = lemma_page_at(d.skip(found), cut.1.0, cut.1.1, sessions, cut.1.2, page);
    lemma_status_parts(d, found, cut.1.0, cut.1.1, at.0, at.1, page);
    StatusPage { found, first: found + at.0, ..at.1 }
}

/// Whenever the page on where the user stands is shown, the sessions were listed from the
/// remote, and the page is the one for the commit that is checked out.
#[verifier::spinoff_prover]
pub proof fn law_status_transcript(d: Seq<Turn>, page: Seq<char>) -> (at: (int, StatusPage))
    requires
        dialogue::succeeds(|log: Seq<Reply>| status::render_status_run(log), d, page),
    ensures
        0 <= at.0 <= d.len(),
        starting::is_listing(d.take(at.0), at.1.sessions),
        is_status(d.skip(at.0), at.1, page),
{
    let first = |log: Seq<Reply>| session::list_sessions_run(log);
    assert forall|log: Seq<Reply>, more: Seq<Reply>| #[trigger]
        replay::replays(first, log, more) by {
        replay::lemma_list_sessions(log, more);
    }
    let cut = dialogue::lemma_split(
        |log: Seq<Reply>| status::render_status_run(log),
        first,
        |sessions: Seq<SessionInfoView>, log: Seq<Reply>|
            status::status_among_run(sessions, log),
        d,
        page,
    );
    starting::law_list_sessions_transcript(d.take(cut.0), cut.1);
    let p = lemma_status_among(d.skip(cut.0), cut.1, page);
    (cut.0, p)
}

/// What is shown during work. On the commit of a session it is the page on that session, with
/// the time that is left until the next push. On another commit it is the page on where the
/// user stands.
pub open spec fn is_work_page(
    d: Seq<Turn>,
    push_deadline: Option<u128>,
    page: Seq<char>,
    sessions: Seq<SessionInfoView>,
    listed: int,
    session_page: SessionPage,
    relisted: int,
    p: StatusPage,
) -> bool {
    let head = dialogue::output_of(d[listed].reply);
    &&& 0 <= listed < d.len()
    &&& starting::is_listing(d.take(listed), sessions)
    &&& dialogue::answered(d[listed], dialogue::git_query(seq!["rev-parse"@, "HEAD"@]))
    &&& if exists|i: int| watching::is_first_at(sessions, head, i) {
        exists|i: int|
            #[trigger] watching::is_first_at(sessions, head, i) && is_session_page(
                d.skip(listed + 1),
                sessions[i],
                push_deadline,
                page,
                session_page,
            )
    } else {
        let rest = d.skip(listed + 1);
        &&& 0 <= relisted <= rest.len()
        &&& starting::is_listing(rest.take(relisted), p.sessions)
        &&& is_status(rest.skip(relisted), p, page)
    }
}

#[verifier::spinoff_prover]
proof fn lemma_work_among(
    d: Seq<Turn>,
    sessions: Seq<SessionInfoView>,
    push_deadline: Option<u128>,
    page: Seq<char>,
) -> (at: (SessionPage, int, StatusPage))
    requires
        dialogue::succeeds(
            |log: Seq<Reply>| status::work_status_among_run(sessions, push_deadline, log),
            d,
            page,
        ),
    ensures
        d.len() > 0,
        dialogue::answered(d[0], dialogue::git_query(seq!["rev-parse"@, "HEAD"@])),
        if exists|i: int|
            watching::is_first_at(sessions, dialogue::output_of(d[0].reply), i) {
            exists|i: int|
                #[trigger] watching::is_first_at(
                    sessions,
                    dialogue::output_of(d[0].reply),
                    i,
                ) && is_session_page(d.skip(1), sessions[i], push_deadline, page, at.0)
        } else {
            &&& 0 <= at.1 <= d.skip(1).len()
            &&& starting::is_listing(d.skip(1).take(at.1), at.2.sessions)
            &&& is_status(d.skip(1).skip(at.1), at.2, page)
        },
{
    let first = |log: Seq<Reply>| session::head_run(log);
    assert forall|log: Seq<Reply>, more: Seq<Reply>| #[trigger]
        replay::replays(first, log, more) by {
        replay::lemma_head(log, more);
    }
    let next = |head: Seq<char>, log: Seq<Reply>|
        match session::session_at(sessions, head) {
            Some(session) => status::working_commit_status_run(session, push_deadline, log),
            None => status::render_status_run(log),
        };
    let cut = dialogue::lemma_split(
        |log: Seq<Reply>| status::work_status_among_run(sessions, push_deadline, log),
        first,
        next,
        d,
        page,
    );
    let head = cut.1;
    let front = d.take(cut.0);
    assert(front.len() == 1 && dialogue::answered(
        front[0],
        dialogue::git_query(seq!["rev-parse"@, "HEAD"@]),
    ) && head == dialogue::output_of(front[0].reply)) by {
        dialogue::lemma_words();
        dialogue::lemma_replies();
        transcripts::lemma_steps(first, front, head);
    }
    assert(front[0] == d[0]);
    watching::lemma_first_at(sessions, head);
    let tail = d.skip(1);
    let then = |log: Seq<Reply>| next(head, log);
    match session::session_at(sessions, head) {
        Some(session) => {
            let same = |log: Seq<Reply>|
                status::working_commit_status_run(session, push_deadline, log);
            dialogue::lemma_same(then, same, tail, page);
            let parts = law_session_page_transcript(tail, session, push_deadline, page);
            (parts, 0, arbitrary())
        },
        None => {
            let same = |log: Seq<Reply>| status::render_status_run(log);
            dialogue::lemma_same(then, same, tail, page);
            let p = law_status_transcript(tail, page);
            (arbitrary(), p.0, p.1)
        },
    }
}

/// Whenever the page of work is shown, it is the one for the commit that is checked out.
#[verifier::spinoff_prover]
pub proof fn law_work_page_transcript(
    d: Seq<Turn>,
    push_deadline: Option<u128>,
    page: Seq<char>,
) -> (at: (Seq<SessionInfoView>, int, SessionPage, int, StatusPage))
    requires
        dialogue::succeeds(
            |log: Seq<Reply>| status::render_work_session_status_run(push_deadline, log),
            d,
            page,
        ),
    ensures
        is_work_page(d, push_deadline, page, at.0, at.1, at.2, at.3, at.4),
{
    let first = |log: Seq<Reply>| session::list_sessions_run(log);
    assert forall|log: Seq<Reply>, more: Seq<Reply>| #[trigger]
        replay::replays(first, log, more) by {
        replay::lemma_list_sessions(log, more);
    }
    let cut = dialogue::lemma_split(
        |log: Seq<Reply>| status::render_work_session_status_run(push_deadline, log),
        first,
        |sessions: Seq<SessionInfoView>, log: Seq<Reply>|
            status::work_status_among_run(sessions, push_deadline, log),
        d,
        page,
    );
    let listed = cut.0;
    starting::law_list_sessions_transcript(d.take(listed), cut.1);
    let tail = d.skip(listed);
    let at = lemma_work_among(tail, cut.1, push_deadline, page);
    assert(tail[0] == d[listed]);
    assert(tail.skip(1) =~= d.skip(listed + 1));
    (cut.1, listed, at.0, at.1, at.2)
}

} // verus!
