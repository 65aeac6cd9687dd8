//! When a page is owed: the requests that it takes get the answers it needs.

use crate::claim;
use crate::claim::{ClaimInfoView, ClaimeeIdView};
use crate::exchange::{Reply, Run};
use crate::laws::beginnings;
use crate::laws::dialogue;
use crate::laws::dialogue::Turn;
use crate::laws::pages;
use crate::laws::pages::{SessionPage, StatusPage};
use crate::laws::starting;
use crate::laws::success;
use crate::laws::transcripts;
use crate::laws::watching;
use crate::session;
use crate::session::SessionInfoView;
use crate::status;
use crate::style;
use crate::sync::SyncStatusView;
use crate::text;
use vstd::prelude::*;

verus! {

#[verifier::spinoff_prover]
proof fn lemma_unknown_setup(d: Seq<Turn>) -> (message: Seq<char>)
    requires
        pages::is_unknown_setup(d),
    ensures
        dialogue::fails(|log: Seq<Reply>| claim::current_run(log), d, message),
{
    dialogue::lemma_replies();
    assert(Seq::<Seq<char>>::empty() =~= seq![]);
    let message = if d.len() == 2 {
        "Could not determine local machine user."@
    } else {
        "Could not determine machine id."@
    };
    dialogue::lemma_made(|log: Seq<Reply>| claim::current_run(log), d);
    message
}

#[verifier::spinoff_prover]
proof fn lemma_own_check(d: Seq<Turn>, id: ClaimeeIdView, own: bool)
    requires
        pages::is_own_check(d, id, own),
    ensures
        dialogue::succeeds(
            |log: Seq<Reply>| claim::is_known_current_setup_run(id, log),
            d,
            own,
        ),
{
    reveal(pages::is_own_check);
    let current = |log: Seq<Reply>| claim::current_run(log);
    let whole = |log: Seq<Reply>| claim::is_known_current_setup_run(id, log);
    if !own && pages::is_unknown_setup(d) {
        let message = lemma_unknown_setup(d);
        assert forall|n: int| 0 <= n < d.len() implies whole(
            #[trigger] dialogue::replies(d).take(n),
        ) == Run::<bool>::Asks(d[n].request) by {
            assert(current(dialogue::replies(d).take(n)) == Run::<ClaimeeIdView>::Asks(
                d[n].request,
            ));
        }
        assert forall|rest: Seq<Reply>| whole(
            #[trigger] (dialogue::replies(d) + rest),
        ) == Run::Done(own, rest) by {
            assert(current(dialogue::replies(d) + rest) == Run::<ClaimeeIdView>::Failed(
                message,
                rest,
            ));
        }
    } else {
        let found = if own {
            id
        } else {
            choose|other: ClaimeeIdView|
                other != id && #[trigger] transcripts::is_setup(d, other)
        };
        success::lemma_setup(d, found);
        assert forall|n: int| 0 <= n < d.len() implies whole(
            #[trigger] dialogue::replies(d).take(n),
        ) == Run::<bool>::Asks(d[n].request) by {
            assert(current(dialogue::replies(d).take(n)) == Run::<ClaimeeIdView>::Asks(
                d[n].request,
            ));
        }
        assert forall|rest: Seq<Reply>| whole(
            #[trigger] (dialogue::replies(d) + rest),
        ) == Run::Done(own, rest) by {
            assert(current(dialogue::replies(d) + rest) == Run::Done(found, rest));
        }
    }
}

#[verifier::spinoff_prover]
proof fn lemma_own_claim_told(d: Seq<Turn>, claim: ClaimInfoView, message: Seq<char>)
    requires
        pages::is_own_claim_told(d, claim, message),
    ensures
        dialogue::succeeds(
            |log: Seq<Reply>| status::current_user_claim_message_run(claim, log),
            d,
            message,
        ),
{
    reveal(pages::is_own_claim_told);
    dialogue::lemma_replies();
    dialogue::lemma_made(
        |log: Seq<Reply>| status::current_user_claim_message_run(claim, log),
        d,
    );
}

#[verifier::spinoff_prover]
proof fn lemma_duration_told(d: Seq<Turn>, claim: ClaimInfoView, message: Seq<char>)
    requires
        pages::is_duration_told(d, claim, message),
    ensures
        dialogue::succeeds(
            |log: Seq<Reply>| status::claim_duration_run(claim, log),
            d,
            message,
        ),
{
    reveal(pages::is_duration_told);
    dialogue::lemma_replies();
    dialogue::lemma_made(|log: Seq<Reply>| status::claim_duration_run(claim, log), d);
}

#[verifier::spinoff_prover]
proof fn lemma_claim_told(
    d: Seq<Turn>,
    claim: Option<ClaimInfoView>,
    message: Seq<char>,
    own: bool,
    k: int,
    inner: Seq<char>,
)
    requires
        pages::is_claim_told(d, claim, message, own, k, inner),
    ensures
        dialogue::succeeds(
            |log: Seq<Reply>| status::work_indicator_run(claim, log),
            d,
            message,
        ),
{
    reveal(pages::is_claim_told);
    let whole = |log: Seq<Reply>| status::work_indicator_run(claim, log);
    match claim {
        None => {
            dialogue::lemma_replies();
            dialogue::lemma_made(whole, d);
        },
        Some(claim) => {
            let told = |text: Seq<char>, log: Seq<Reply>|
                Run::Done(
                    text + "\nTo unclaim the current session, run "@ + style::blue(
                        "jist unclaim"@,
                    ) + "."@,
                    log,
                );
            let other = |duration: Seq<char>, log: Seq<Reply>|
                Run::Done(
                    "This session is "@ + style::red("claimed"@) + " by another developer: "@
                        + claim::claimee_text(claim.claimee_id) + ".\n"@ + duration,
                    log,
                );
            let next = |own: bool, log: Seq<Reply>|
                if own {
                    status::current_user_claim_message_run(claim, log).and_then(told)
                } else {
                    status::claim_duration_run(claim, log).and_then(other)
                };
            let then = |log: Seq<Reply>| next(own, log);
            lemma_own_check(d.take(k), claim.claimee_id, own);
            if own {
                lemma_own_claim_told(d.skip(k), claim, inner);
                success::lemma_then_done(
                    then,
                    |log: Seq<Reply>| status::current_user_claim_message_run(claim, log),
                    told,
                    d.skip(k),
                    inner,
                    message,
                );
            } else {
                lemma_duration_told(d.skip(k), claim, inner);
                success::lemma_then_done(
                    then,
                    |log: Seq<Reply>| status::claim_duration_run(claim, log),
                    other,
                    d.skip(k),
                    inner,
                    message,
                );
            }
            dialogue::lemma_join(
                whole,
                |log: Seq<Reply>| claim::is_known_current_setup_run(claim.claimee_id, log),
                next,
                d,
                k,
                own,
                message,
            );
        },
    }
}

#[verifier::spinoff_prover]
proof fn lemma_banner(
    d: Seq<Turn>,
    session: SessionInfoView,
    short_base: Seq<char>,
    claim: Option<ClaimInfoView>,
    banner: Seq<char>,
    own: bool,
)
    requires
        pages::is_banner(d, session.name, short_base, claim, banner, own),
    ensures
        dialogue::succeeds(
            |log: Seq<Reply>|
                status::working_commit_banner_run(session, short_base, claim, log),
            d,
            banner,
        ),
{
    reveal(pages::is_banner);
    let first = |log: Seq<Reply>| status::is_own_claim_run(claim, log);
    match claim {
        Some(claim) => {
            lemma_own_check(d, claim.claimee_id, own);
            dialogue::lemma_same(
                |log: Seq<Reply>| claim::is_known_current_setup_run(claim.claimee_id, log),
                first,
                d,
                own,
            );
        },
        None => {
            dialogue::lemma_replies();
            dialogue::lemma_made(first, d);
        },
    }
    success::lemma_then_done(
        |log: Seq<Reply>| status::working_commit_banner_run(session, short_base, claim, log),
        first,
        |own: bool, log: Seq<Reply>|
            Run::Done(status::banner_text(session.name, short_base, own), log),
        d,
        own,
        banner,
    );
}

#[verifier::spinoff_prover]
proof fn lemma_section(
    d: Seq<Turn>,
    counted: SyncStatusView,
    push_deadline: Option<u128>,
    section: Seq<char>,
)
    requires
        pages::is_section(d, counted, push_deadline, section),
    ensures
        dialogue::succeeds(
            |log: Seq<Reply>| status::sync_section_run(counted, push_deadline, log),
            d,
            section,
        ),
{
    reveal(pages::is_section);
    pages::law_sync_sentences(counted);
    dialogue::lemma_replies();
    dialogue::lemma_made(
        |log: Seq<Reply>| status::sync_section_run(counted, push_deadline, log),
        d,
    );
}

#[verifier::spinoff_prover]
proof fn lemma_condition(
    d: Seq<Turn>,
    session: SessionInfoView,
    counted: SyncStatusView,
    claim: Option<ClaimInfoView>,
)
    requires
        d.len() == 4,
        pages::is_counting(d.take(3), "jist-"@ + session::escaped(session.name), counted),
        transcripts::is_metadata(d[3], "jist-"@ + session::escaped(session.name)),
        claim::claim_in(dialogue::output_of(d[3].reply)) == Ok::<
            Option<ClaimInfoView>,
            Seq<char>,
        >(claim),
    ensures
        dialogue::succeeds(
            |log: Seq<Reply>| status::condition_run(session, log),
            d,
            (counted, claim),
        ),
{
    reveal(pages::is_counting);
    let front = d.take(3);
    assert(front[0] == d[0] && front[1] == d[1] && front[2] == d[2]);
    transcripts::lemma_remote_ref(session::branch_of(session.name));
    dialogue::lemma_words();
    dialogue::lemma_replies();
    dialogue::lemma_made(|log: Seq<Reply>| status::condition_run(session, log), d);
}

#[verifier::spinoff_prover]
proof fn lemma_address(d: Seq<Turn>, session: SessionInfoView, url: Seq<char>)
    requires
        d.len() == 2,
        dialogue::answered(
            d[0],
            dialogue::gh_query(
                seq![
                    "repo"@,
                    "view"@,
                    "--json"@,
                    "nameWithOwner"@,
                    "--jq"@,
                    ".nameWithOwner"@,
                ],
            ),
        ),
        dialogue::answered(
            d[1],
            dialogue::git_query(seq!["rev-parse"@, "--short"@, session.base_commit]),
        ),
        text::split_once(dialogue::output_of(d[0].reply), '/') matches Some((owner, name)) && url
            == "https://jisthub.com/"@ + owner + "/"@ + name + "/session/"@ + session::escaped(
            session.name,
        ),
    ensures
        dialogue::succeeds(
            |log: Seq<Reply>| status::address_run(session, log),
            d,
            (url, dialogue::output_of(d[1].reply)),
        ),
{
    dialogue::lemma_words();
    dialogue::lemma_replies();
    dialogue::lemma_made(|log: Seq<Reply>| status::address_run(session, log), d);
}

#[verifier::spinoff_prover]
proof fn lemma_texts(
    d: Seq<Turn>,
    session: SessionInfoView,
    short_base: Seq<char>,
    k: int,
    p: SessionPage,
)
    requires
        0 <= k <= d.len(),
        pages::is_banner(d.take(k), session.name, short_base, p.claim, p.banner, p.own),
        pages::is_claim_told(
            d.skip(k),
            p.claim,
            p.told,
            p.told_own,
            p.told_check,
            p.told_inner,
        ),
    ensures
        dialogue::succeeds(
            |log: Seq<Reply>| status::claim_texts_run(session, short_base, p.claim, log),
            d,
            (p.banner, p.told),
        ),
{
    let claim = p.claim;
    lemma_banner(d.take(k), session, short_base, claim, p.banner, p.own);
    lemma_claim_told(d.skip(k), claim, p.told, p.told_own, p.told_check, p.told_inner);
    let next = |banner: Seq<char>, log: Seq<Reply>|
        status::work_indicator_run(claim, log).and_then(
            |indicator: Seq<char>, log: Seq<Reply>| Run::Done((banner, indicator), log),
        );
    success::lemma_then_done(
        |log: Seq<Reply>| next(p.banner, log),
        |log: Seq<Reply>| status::work_indicator_run(claim, log),
        |indicator: Seq<char>, log: Seq<Reply>| Run::Done((p.banner, indicator), log),
        d.skip(k),
        p.told,
        (p.banner, p.told),
    );
    dialogue::lemma_join(
        |log: Seq<Reply>| status::claim_texts_run(session, short_base, claim, log),
        |log: Seq<Reply>| status::working_commit_banner_run(session, short_base, claim, log),
        next,
        d,
        k,
        p.banner,
        (p.banner, p.told),
    );
}

#[verifier::spinoff_prover]
proof fn lemma_status_page(
    d: Seq<Turn>,
    session: SessionInfoView,
    push_deadline: Option<u128>,
    url: Seq<char>,
    short_base: Seq<char>,
    k: int,
    e: int,
    p: SessionPage,
    page: Seq<char>,
)
    requires
        0 <= k <= e <= d.len(),
        pages::is_banner(d.take(k), session.name, short_base, p.claim, p.banner, p.own),
        pages::is_claim_told(
            d.subrange(k, e),
            p.claim,
            p.told,
            p.told_own,
            p.told_check,
            p.told_inner,
        ),
        pages::is_section(d.skip(e), p.counted, push_deadline, p.section),
        page == p.banner + "\nVisit "@ + ("\x1b[34;4m"@ + url + "\x1b[0m"@)
            + " for detailed information.\n\n"@ + p.section + "\n\n"@ + p.told + "\n"@,
    ensures
        dialogue::succeeds(
            |log: Seq<Reply>|
                status::status_page_run(
                    session,
                    push_deadline,
                    url,
                    short_base,
                    p.counted,
                    p.claim,
                    log,
                ),
            d,
            page,
        ),
{
    let front = d.take(e);
    assert(front.take(k) =~= d.take(k));
    assert(front.skip(k) =~= d.subrange(k, e));
    lemma_texts(front, session, short_base, k, p);
    lemma_section(d.skip(e), p.counted, push_deadline, p.section);
    let counted = p.counted;
    let texts = (p.banner, p.told);
    let next = |texts: (Seq<char>, Seq<char>), log: Seq<Reply>|
        status::sync_section_run(counted, push_deadline, log).and_then(
            |section: Seq<char>, log: Seq<Reply>|
                Run::Done(
                    texts.0 + "\nVisit "@ + style::linked(url)
                        + " for detailed information.\n\n"@ + section + "\n\n"@ + texts.1
                        + "\n"@,
                    log,
                ),
        );
    success::lemma_then_done(
        |log: Seq<Reply>| next(texts, log),
        |log: Seq<Reply>| status::sync_section_run(counted, push_deadline, log),
        |section: Seq<char>, log: Seq<Reply>|
            Run::Done(
                texts.0 + "\nVisit "@ + style::linked(url) + " for detailed information.\n\n"@
                    + section + "\n\n"@ + texts.1 + "\n"@,
                log,
            ),
        d.skip(e),
        p.section,
        page,
    );
    dialogue::lemma_join(
        |log: Seq<Reply>|
            status::status_page_run(
                session,
                push_deadline,
                url,
                short_base,
                counted,
                p.claim,
                log,
            ),
        |log: Seq<Reply>| status::claim_texts_run(session, short_base, p.claim, log),
        next,
        d,
        e,
        texts,
        page,
    );
}

#[verifier::spinoff_prover]
proof fn lemma_joined_page(
    d: Seq<Turn>,
    session: SessionInfoView,
    push_deadline: Option<u128>,
    url: Seq<char>,
    short_base: Seq<char>,
    p: SessionPage,
    page: Seq<char>,
)
    requires
        d.len() >= 6,
        dialogue::succeeds(
            |log: Seq<Reply>| status::address_run(session, log),
            d.take(2),
            (url, short_base),
        ),
        dialogue::succeeds(
            |log: Seq<Reply>| status::condition_run(session, log),
            d.subrange(2, 6),
            (p.counted, p.claim),
        ),
        dialogue::succeeds(
            |log: Seq<Reply>|
                status::status_page_run(
                    session,
                    push_deadline,
                    url,
                    short_base,
                    p.counted,
                    p.claim,
                    log,
                ),
            d.skip(6),
            page,
        ),
    ensures
        dialogue::succeeds(
            |log: Seq<Reply>| status::working_commit_status_run(session, push_deadline, log),
            d,
            page,
        ),
{
    let tail = d.skip(2);
    assert(tail.take(4) =~= d.subrange(2, 6));
    assert(tail.skip(4) =~= d.skip(6));
    dialogue::lemma_join(
        |log: Seq<Reply>|
            status::addressed_page_run(session, push_deadline, url, short_base, log),
        |log: Seq<Reply>| status::condition_run(session, log),
        |condition: (SyncStatusView, Option<ClaimInfoView>), log: Seq<Reply>|
            status::status_page_run(
                session,
                push_deadline,
                url,
                short_base,
                condition.0,
                condition.1,
                log,
            ),
        tail,
        4,
        (p.counted, p.claim),
        page,
    );
    dialogue::lemma_join(
        |log: Seq<Reply>| status::working_commit_status_run(session, push_deadline, log),
        |log: Seq<Reply>| status::address_run(session, log),
        |address: (Seq<char>, Seq<char>), log: Seq<Reply>|
            status::addressed_page_run(session, push_deadline, address.0, address.1, log),
        d,
        2,
        (url, short_base),
        page,
    );
}

/// The page on a session is owed where the commands and the clocks answer.
#[verifier::spinoff_prover]
pub proof fn law_session_page_is_owed(
    d: Seq<Turn>,
    session: SessionInfoView,
    push_deadline: Option<u128>,
    page: Seq<char>,
    p: SessionPage,
)
    requires
        pages::is_session_page(d, session, push_deadline, page, p),
    ensures
        dialogue::succeeds(
            |log: Seq<Reply>| status::working_commit_status_run(session, push_deadline, log),
            d,
            page,
        ),
{
    reveal(pages::is_session_page);
    let fields = text::split_once(dialogue::output_of(d[0].reply), '/')->Some_0;
    let url = "https://jisthub.com/"@ + fields.0 + "/"@ + fields.1 + "/session/"@
        + session::escaped(session.name);
    let short_base = dialogue::output_of(d[1].reply);
    assert(d.take(2)[0] == d[0] && d.take(2)[1] == d[1]);
    lemma_address(d.take(2), session, url);
    let middle = d.subrange(2, 6);
    assert(middle.take(3) =~= d.subrange(2, 5));
    assert(middle[3] == d[5]);
    lemma_condition(middle, session, p.counted, p.claim);
    let end = d.skip(6);
    assert(end.take(p.bannered - 6) =~= d.subrange(6, p.bannered));
    assert(end.subrange(p.bannered - 6, p.telling - 6) =~= d.subrange(p.bannered, p.telling));
    assert(end.skip(p.telling - 6) =~= d.skip(p.telling));
    lemma_status_page(
        end,
        session,
        push_deadline,
        url,
        short_base,
        p.bannered - 6,
        p.telling - 6,
        p,
        page,
    );
    lemma_joined_page(d, session, push_deadline, url, short_base, p, page);
}

#[verifier::spinoff_prover]
proof fn lemma_entry(d: Seq<Turn>, session: SessionInfoView, selected: Option<Seq<char>>)
    requires
        d.len() == 2,
        pages::is_entry_asked(d, seq![session], 0),
    ensures
        dialogue::succeeds(
            |log: Seq<Reply>| status::list_entry_run(session, selected, log),
            d,
            pages::entry_text(d[0].reply, d[1].reply, session, selected),
        ),
{
    transcripts::lemma_remote_ref(session::branch_of(session.name));
    dialogue::lemma_words();
    dialogue::lemma_replies();
    dialogue::lemma_made(|log: Seq<Reply>| status::list_entry_run(session, selected, log), d);
}

/// The entries `shown` and those on `rest`, one after the other.
spec fn more_entries(
    shown: Seq<char>,
    d: Seq<Turn>,
    rest: Seq<SessionInfoView>,
    selected: Option<Seq<char>>,
) -> Seq<char>
    decreases rest.len(),
{
    if rest.len() == 0 {
        shown
    } else {
        more_entries(
            shown + pages::entry_text(d[0].reply, d[1].reply, rest[0], selected),
            d.skip(2),
            rest.skip(1),
            selected,
        )
    }
}

#[verifier::spinoff_prover]
proof fn lemma_entries(
    shown: Seq<char>,
    d: Seq<Turn>,
    rest: Seq<SessionInfoView>,
    selected: Option<Seq<char>>,
)
    requires
        d.len() == 2 * rest.len(),
        forall|i: int| 0 <= i < rest.len() ==> #[trigger] pages::is_entry_asked(d, rest, i),
    ensures
        dialogue::succeeds(
            |log: Seq<Reply>| status::list_entries_run(shown, rest, selected, log),
            d,
            more_entries(shown, d, rest, selected),
        ),
    decreases rest.len(),
{
    let whole = |log: Seq<Reply>| status::list_entries_run(shown, rest, selected, log);
    let list = more_entries(shown, d, rest, selected);
    if rest.len() == 0 {
        dialogue::lemma_replies();
        dialogue::lemma_made(whole, d);
    } else {
        let front = d.take(2);
        let tail = d.skip(2);
        let later = rest.skip(1);
        assert(pages::is_entry_asked(d, rest, 0));
        assert(front[0] == d[0] && front[1] == d[1]);
        assert(pages::is_entry_asked(front, seq![rest[0]], 0));
        let entry = pages::entry_text(d[0].reply, d[1].reply, rest[0], selected);
        lemma_entry(front, rest[0], selected);
        assert forall|i: int| 0 <= i < later.len() implies #[trigger] pages::is_entry_asked(
            tail,
            later,
            i,
        ) by {
            assert(pages::is_entry_asked(d, rest, i + 1));
            assert(tail[2 * i] == d[2 * (i + 1)]);
            assert(tail[2 * i + 1] == d[2 * (i + 1) + 1]);
        }
        lemma_entries(shown + entry, tail, later, selected);
        let next = |entry: Seq<char>, log: Seq<Reply>|
            status::list_entries_run(shown + entry, rest.skip(1), selected, log);
        dialogue::lemma_join(
            whole,
            |log: Seq<Reply>| status::list_entry_run(rest[0], selected, log),
            next,
            d,
            2,
            entry,
            list,
        );
    }
}

#[verifier::spinoff_prover]
proof fn lemma_same_entries(
    done: Seq<Turn>,
    listed: Seq<SessionInfoView>,
    d: Seq<Turn>,
    rest: Seq<SessionInfoView>,
    selected: Option<Seq<char>>,
)
    requires
        done.len() == 2 * listed.len(),
        d.len() == 2 * rest.len(),
    ensures
        more_entries(pages::entries_text(done, listed, selected), d, rest, selected)
            == pages::entries_text(done + d, listed + rest, selected),
    decreases rest.len(),
{
    if rest.len() == 0 {
        assert(done + d =~= done);
        assert(listed + rest =~= listed);
    } else {
        let front = d.take(2);
        let now = done + front;
        let named = listed.push(rest[0]);
        let n = 2 * listed.len() as int;
        assert(named.drop_last() =~= listed);
        assert(now.take(done.len() as int) =~= done);
        pages::lemma_entries_of(done, now, listed, selected);
        assert(now[n] == d[0] && now[n + 1] == d[1]);
        lemma_same_entries(now, named, d.skip(2), rest.skip(1), selected);
        assert(now + d.skip(2) =~= done + d);
        assert(named + rest.skip(1) =~= listed + rest);
    }
}

/// A list is owed where the metadata of each session that it shows can be read.
#[verifier::spinoff_prover]
pub proof fn law_list_is_owed(
    d: Seq<Turn>,
    sessions: Seq<SessionInfoView>,
    limit: Option<usize>,
    selected: Option<Seq<char>>,
    list: Seq<char>,
)
    requires
        pages::is_list(d, sessions, limit, selected, list),
    ensures
        dialogue::succeeds(
            |log: Seq<Reply>| status::session_list_run(sessions, limit, selected, log),
            d,
            list,
        ),
{
    reveal(pages::is_list);
    let whole = |log: Seq<Reply>| status::session_list_run(sessions, limit, selected, log);
    if sessions.len() == 0 {
        dialogue::lemma_replies();
        dialogue::lemma_made(whole, d);
    } else {
        let n = status::shown_count(sessions.len(), limit) as int;
        let visible = sessions.take(n);
        let none = Seq::<Turn>::empty();
        let nobody = Seq::<SessionInfoView>::empty();
        assert forall|i: int| 0 <= i < visible.len() implies #[trigger] pages::is_entry_asked(
            d,
            visible,
            i,
        ) by {
            assert(pages::is_entry_asked(d, sessions, i));
        }
        let entries = more_entries(Seq::empty(), d, visible, selected);
        lemma_entries(Seq::empty(), d, visible, selected);
        assert(pages::entries_text(none, nobody, selected) == Seq::<char>::empty());
        lemma_same_entries(none, nobody, d, visible, selected);
        assert(none + d =~= d);
        assert(nobody + visible =~= visible);
        success::lemma_then_done(
            whole,
            |log: Seq<Reply>|
                status::list_entries_run(Seq::empty(), visible, selected, log),
            |entries: Seq<char>, log: Seq<Reply>|
                Run::Done(
                    entries + status::hidden_text((sessions.len() - n) as nat),
                    log,
                ),
            d,
            entries,
            list,
        );
    }
}

#[verifier::spinoff_prover]
proof fn lemma_selected(
    sessions: Seq<SessionInfoView>,
    shown: Seq<Turn>,
    selected: Option<Seq<char>>,
)
    requires
        watching::is_checked_out(shown, sessions, selected),
    ensures
        shown.len() >= 1,
        match session::session_at(sessions, dialogue::output_of(shown[0].reply)) {
            Some(found) => shown.len() == 1 && selected == Some(found.name),
            None => shown.len() == 2 && selected == session::session_of_branch(
                dialogue::output_of(shown[1].reply),
            ),
        },
{
    reveal(watching::is_checked_out);
    let head = dialogue::output_of(shown[0].reply);
    let branch = dialogue::output_of(shown[1].reply);
    watching::lemma_first_at(sessions, head);
    watching::lemma_branch_name(branch);
    if let Some(found) = session::session_at(sessions, head) {
        let i = choose|i: int|
            #[trigger] watching::is_first_at(sessions, head, i) && sessions[i] == found;
        let j = choose|j: int|
            #[trigger] watching::is_first_at(sessions, head, j) && selected == Some(
                sessions[j].name,
            );
        assert(watching::is_first_at(sessions, head, i));
        assert(watching::is_first_at(sessions, head, j));
        assert(i == j);
    } else {
        if let (Some(a), Some(b)) = (selected, session::session_of_branch(branch)) {
            let n = "jist-"@.len() as int;
            assert(branch.skip(n) =~= a);
            assert(branch.skip(n) =~= b);
        }
    }
}

#[verifier::spinoff_prover]
proof fn lemma_standing(
    d: Seq<Turn>,
    sessions: Seq<SessionInfoView>,
    selected: Option<Seq<char>>,
)
    requires
        pages::is_standing(d, sessions, selected),
    ensures
        d.len() >= 2,
        dialogue::succeeds(
            |log: Seq<Reply>| status::standing_run(sessions, log),
            d,
            (
                dialogue::output_of(d[0].reply),
                dialogue::output_of(d[1].reply),
                selected,
            ),
        ),
{
    reveal(pages::is_standing);
    let shown = seq![d[0]] + d.skip(2);
    lemma_selected(sessions, shown, selected);
    assert(shown[0] == d[0]);
    assert(shown.len() == 2 ==> shown[1] == d[2]);
    assert(dialogue::answered(d[0], dialogue::git_query(seq!["rev-parse"@, "HEAD"@])) && (
    shown.len() == 2 ==> dialogue::answered(
        d[2],
        dialogue::git_query(seq!["branch"@, "--show-current"@]),
    ))) by {
        reveal(watching::is_checked_out);
        watching::lemma_first_at(sessions, dialogue::output_of(d[0].reply));
    }
    dialogue::lemma_words();
    dialogue::lemma_replies();
    dialogue::lemma_made(|log: Seq<Reply>| status::standing_run(sessions, log), d);
}

#[verifier::spinoff_prover]
proof fn lemma_on_session(
    d: Seq<Turn>,
    session: SessionInfoView,
    sessions: Seq<SessionInfoView>,
    selected: Option<Seq<char>>,
    k: int,
    top: Seq<char>,
    list: Seq<char>,
    p: SessionPage,
)
    requires
        0 <= k <= d.len(),
        pages::is_session_page(d.take(k), session, None, top, p),
        pages::is_list(d.skip(k), sessions, Some(3), selected, list),
    ensures
        dialogue::succeeds(
            |log: Seq<Reply>| status::on_session_run(session, sessions, selected, log),
            d,
            top + "\n"@ + "Sessions:\n"@ + list,
        ),
{
    let page = top + "\n"@ + "Sessions:\n"@ + list;
    law_session_page_is_owed(d.take(k), session, None, top, p);
    law_list_is_owed(d.skip(k), sessions, Some(3), selected, list);
    let next = |top: Seq<char>, log: Seq<Reply>|
        status::session_list_run(sessions, Some(3), selected, log).and_then(
            |list: Seq<char>, log: Seq<Reply>|
                Run::Done(top + "\n"@ + "Sessions:\n"@ + list, log),
        );
    success::lemma_then_done(
        |log: Seq<Reply>| next(top, log),
        |log: Seq<Reply>| status::session_list_run(sessions, Some(3), selected, log),
        |list: Seq<char>, log: Seq<Reply>|
            Run::Done(top + "\n"@ + "Sessions:\n"@ + list, log),
        d.skip(k),
        list,
        page,
    );
    dialogue::lemma_join(
        |log: Seq<Reply>| status::on_session_run(session, sessions, selected, log),
        |log: Seq<Reply>| status::working_commit_status_run(session, None, log),
        next,
        d,
        k,
        top,
        page,
    );
}

/// The text of the page off the sessions.
spec fn off_text(short_head: Seq<char>, based: Seq<char>, other: Seq<char>) -> Seq<char> {
    "You are on git commit "@ + style::blue(short_head) + ".\n"@
        + "The following sessions are "@ + style::green("based on this commit"@) + ":\n"@ + based
        + "\n"@ + "Other sessions in this repository:\n"@ + other + "\n"@
        + "To display all sessions, run "@ + style::blue("jist list"@) + ".\n"@
        + "To work on a session, run "@ + style::blue("jist work <session name>"@) + ".\n"@
}

#[verifier::spinoff_prover]
proof fn lemma_off_session(
    d: Seq<Turn>,
    head: Seq<char>,
    short_head: Seq<char>,
    sessions: Seq<SessionInfoView>,
    selected: Option<Seq<char>>,
    k: int,
    based: Seq<char>,
    other: Seq<char>,
)
    requires
        0 <= k <= d.len(),
        pages::is_list(d.take(k), status::based_on(sessions, head), Some(3), selected, based),
        pages::is_list(d.skip(k), status::not_based_on(sessions, head), Some(3), selected, other),
    ensures
        dialogue::succeeds(
            |log: Seq<Reply>|
                status::off_session_run(head, short_head, sessions, selected, log),
            d,
            off_text(short_head, based, other),
        ),
{
    let near = status::based_on(sessions, head);
    let far = status::not_based_on(sessions, head);
    let page = off_text(short_head, based, other);
    law_list_is_owed(d.take(k), near, Some(3), selected, based);
    law_list_is_owed(d.skip(k), far, Some(3), selected, other);
    let next = |based: Seq<char>, log: Seq<Reply>|
        status::session_list_run(far, Some(3), selected, log).and_then(
            |other: Seq<char>, log: Seq<Reply>|
                Run::Done(off_text(short_head, based, other), log),
        );
    success::lemma_then_done(
        |log: Seq<Reply>| next(based, log),
        |log: Seq<Reply>| status::session_list_run(far, Some(3), selected, log),
        |other: Seq<char>, log: Seq<Reply>|
            Run::Done(off_text(short_head, based, other), log),
        d.skip(k),
        other,
        page,
    );
    dialogue::lemma_join(
        |log: Seq<Reply>| status::off_session_run(head, short_head, sessions, selected, log),
        |log: Seq<Reply>| status::session_list_run(near, Some(3), selected, log),
        next,
        d,
        k,
        based,
        page,
    );
}

#[verifier::spinoff_prover]
proof fn lemma_page_at(d: Seq<Turn>, p: StatusPage, page: Seq<char>)
    requires
        pages::is_status(d, p, page),
    ensures
        2 <= p.found <= d.len(),
        pages::is_standing(d.take(p.found), p.sessions, p.selected),
        dialogue::succeeds(
            |log: Seq<Reply>|
                status::page_at_run(
                    dialogue::output_of(d[0].reply),
                    dialogue::output_of(d[1].reply),
                    p.sessions,
                    p.selected,
                    log,
                ),
            d.skip(p.found),
            page,
        ),
{
    reveal(pages::is_status);
    let head = dialogue::output_of(d[0].reply);
    let short_head = dialogue::output_of(d[1].reply);
    let tail = d.skip(p.found);
    let k = p.first - p.found;
    assert(tail.take(k) =~= d.subrange(p.found, p.first));
    assert(tail.skip(k) =~= d.skip(p.first));
    watching::lemma_first_at(p.sessions, head);
    let whole = |log: Seq<Reply>|
        status::page_at_run(head, short_head, p.sessions, p.selected, log);
    match session::session_at(p.sessions, head) {
        Some(session) => {
            let i = choose|i: int|
                #[trigger] watching::is_first_at(p.sessions, head, i) && p.sessions[i] == session;
            let j = choose|j: int|
                #[trigger] watching::is_first_at(p.sessions, head, j) && pages::is_session_page(
                    d.subrange(p.found, p.first),
                    p.sessions[j],
                    None,
                    p.page,
                    p.session_page,
                );
            assert(watching::is_first_at(p.sessions, head, i));
            assert(watching::is_first_at(p.sessions, head, j));
            assert(i == j);
            lemma_on_session(
                tail,
                session,
                p.sessions,
                p.selected,
                k,
                p.page,
                p.list,
                p.session_page,
            );
            dialogue::lemma_same(
                |log: Seq<Reply>|
                    status::on_session_run(session, p.sessions, p.selected, log),
                whole,
                tail,
                page,
            );
        },
        None => {
            lemma_off_session(
                tail,
                head,
                short_head,
                p.sessions,
                p.selected,
                k,
                p.list,
                p.others,
            );
            dialogue::lemma_same(
                |log: Seq<Reply>|
                    status::off_session_run(head, short_head, p.sessions, p.selected, log),
                whole,
                tail,
                page,
            );
        },
    }
}

#[verifier::spinoff_prover]
proof fn lemma_status_among(d: Seq<Turn>, p: StatusPage, page: Seq<char>)
    requires
        pages::is_status(d, p, page),
    ensures
        dialogue::succeeds(
            |log: Seq<Reply>| status::status_among_run(p.sessions, log),
            d,
            page,
        ),
{
    let sessions = p.sessions;
    let head = dialogue::output_of(d[0].reply);
    let short_head = dialogue::output_of(d[1].reply);
    lemma_page_at(d, p, page);
    lemma_standing(d.take(p.found), sessions, p.selected);
    assert(d.take(p.found)[0] == d[0] && d.take(p.found)[1] == d[1]);
    dialogue::lemma_join(
        |log: Seq<Reply>| status::status_among_run(sessions, log),
        |log: Seq<Reply>| status::standing_run(sessions, log),
        |standing: (Seq<char>, Seq<char>, Option<Seq<char>>), log: Seq<Reply>|
            status::page_at_run(standing.0, standing.1, sessions, standing.2, log),
        d,
        p.found,
        (head, short_head, p.selected),
        page,
    );
}

/// The page on where the user stands is owed where the sessions can be listed and the
/// commands and the clocks answer.
#[verifier::spinoff_prover]
pub proof fn law_status_is_owed(d: Seq<Turn>, listed: int, p: StatusPage, page: Seq<char>)
    requires
        0 <= listed <= d.len(),
        starting::is_listing(d.take(listed), p.sessions),
        pages::is_status(d.skip(listed), p, page),
    ensures
        dialogue::succeeds(|log: Seq<Reply>| status::render_status_run(log), d, page),
{
    beginnings::law_listing_is_owed(d.take(listed), p.sessions);
    lemma_status_among(d.skip(listed), p, page);
    dialogue::lemma_join(
        |log: Seq<Reply>| status::render_status_run(log),
        |log: Seq<Reply>| session::list_sessions_run(log),
        |sessions: Seq<SessionInfoView>, log: Seq<Reply>|
            status::status_among_run(sessions, log),
        d,
        listed,
        p.sessions,
        page,
    );
}

/// The page with all sessions is owed where they can be listed, and their metadata read.
#[verifier::spinoff_prover]
pub proof fn law_all_sessions_are_owed(
    d: Seq<Turn>,
    listed: int,
    found: int,
    sessions: Seq<SessionInfoView>,
    selected: Option<Seq<char>>,
    list: Seq<char>,
)
    requires
        0 <= listed <= found <= d.len(),
        starting::is_listing(d.take(listed), sessions),
        watching::is_checked_out(d.subrange(listed, found), sessions, selected),
        pages::is_list(d.skip(found), sessions, None, selected, list),
    ensures
        dialogue::succeeds(
            |log: Seq<Reply>| status::render_all_sessions_run(log),
            d,
            "Sessions:\n"@ + list,
        ),
{
    let page = "Sessions:\n"@ + list;
    let tail = d.skip(listed);
    let k = found - listed;
    beginnings::law_listing_is_owed(d.take(listed), sessions);
    assert(tail.take(k) =~= d.subrange(listed, found));
    assert(tail.skip(k) =~= d.skip(found));
    beginnings::lemma_checked_out(tail.take(k), sessions, selected);
    law_list_is_owed(tail.skip(k), sessions, None, selected, list);
    success::lemma_then_done(
        |log: Seq<Reply>| status::all_page_run(sessions, selected, log),
        |log: Seq<Reply>| status::session_list_run(sessions, None, selected, log),
        |list: Seq<char>, log: Seq<Reply>| Run::Done("Sessions:\n"@ + list, log),
        tail.skip(k),
        list,
        page,
    );
    dialogue::lemma_join(
        |log: Seq<Reply>| status::all_among_run(sessions, log),
        |log: Seq<Reply>| session::checked_out_among_run(sessions, log),
        |selected: Option<Seq<char>>, log: Seq<Reply>|
            status::all_page_run(sessions, selected, log),
        tail,
        k,
        selected,
        page,
    );
    dialogue::lemma_join(
        |log: Seq<Reply>| status::render_all_sessions_run(log),
        |log: Seq<Reply>| session::list_sessions_run(log),
        |sessions: Seq<SessionInfoView>, log: Seq<Reply>| status::all_among_run(sessions, log),
        d,
        listed,
        sessions,
        page,
    );
}

} // verus!
