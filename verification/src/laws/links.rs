//! The links of a session and how it stands to the user of this machine, word for word.

use crate::claim;
use crate::claim::{ClaimStateView, ClaimeeIdView};
use crate::exchange::{Reply, Run};
use crate::laws::dialogue;
use crate::laws::dialogue::Turn;
use crate::laws::pages;
use crate::laws::replay;
use crate::laws::transcripts;
use crate::repository;
use crate::session;
use crate::status;
use crate::status::SessionLinksView;
use crate::sync::SyncStatusView;
use crate::text;
use vstd::prelude::*;

verus! {

/// How a session stands to the user of this machine: the metadata on its remote branch was
/// read, and where it states a claim, the claimee was compared with the user.
pub open spec fn is_claim_state(
    d: Seq<Turn>,
    branch: Seq<char>,
    state: ClaimStateView,
    current: ClaimeeIdView,
) -> bool {
    &&& d.len() >= 1
    &&& transcripts::is_metadata(d[0], branch)
    &&& match claim::claim_in(dialogue::output_of(d[0].reply)) {
        Ok(Some(claim)) => {
            &&& transcripts::is_setup(d.skip(1), current)
            &&& state == if claim.claimee_id == current {
                ClaimStateView::ClaimedByCurrentSetup
            } else {
                ClaimStateView::ClaimedByOther(claim.claimee_id)
            }
        },
        Ok(None) => d.len() == 1 && state is Unclaimed,
        Err(_) => false,
    }
}

/// Whenever it is told how a session stands to the user of this machine, the metadata on its
/// remote branch decides.
pub proof fn law_claim_state_transcript(d: Seq<Turn>, branch: Seq<char>, state: ClaimStateView) -> (
    current: ClaimeeIdView)
    requires
        dialogue::succeeds(
            |log: Seq<Reply>| claim::claim_state_for_branch_run(branch, log),
            d,
            state,
        ),
    ensures
        is_claim_state(d, branch, state, current),
{
    let first = |log: Seq<Reply>| claim::remote_claim_owner_run(branch, log);
    assert forall|log: Seq<Reply>, more: Seq<Reply>| #[trigger]
        replay::replays(first, log, more) by {
        replay::lemma_owner(branch, log, more);
    }
    let stand = |id: ClaimeeIdView, current: ClaimeeIdView|
        if id == current {
            ClaimStateView::ClaimedByCurrentSetup
        } else {
            ClaimStateView::ClaimedByOther(id)
        };
    let next = |owner: Option<ClaimeeIdView>, log: Seq<Reply>|
        match owner {
            Some(id) => claim::is_current_setup_run(id, log).and_then(
                |mine: bool, log: Seq<Reply>|
                    Run::Done(
                        if mine {
                            ClaimStateView::ClaimedByCurrentSetup
                        } else {
                            ClaimStateView::ClaimedByOther(id)
                        },
                        log,
                    ),
            ),
            None => Run::Done(ClaimStateView::Unclaimed, log),
        };
    let cut = dialogue::lemma_split(
        |log: Seq<Reply>| claim::claim_state_for_branch_run(branch, log),
        first,
        next,
        d,
        state,
    );
    let front = d.take(cut.0);
    let owner = cut.1;
    assert(front.len() == 1 && transcripts::is_metadata(front[0], branch) && (
    claim::claim_in(dialogue::output_of(front[0].reply)) matches Ok(found) && match found {
        Some(claim) => owner == Some(claim.claimee_id),
        None => owner is None,
    })) by {
        dialogue::lemma_words();
        dialogue::lemma_replies();
        transcripts::lemma_remote_ref(branch);
        transcripts::lemma_steps(first, front, owner);
    }
    assert(front[0] == d[0]);
    let tail = d.skip(1);
    let then = |log: Seq<Reply>| next(owner, log);
    match owner {
        Some(id) => {
            let second = |log: Seq<Reply>| claim::current_run(log);
            assert forall|log: Seq<Reply>, more: Seq<Reply>| #[trigger]
                replay::replays(second, log, more) by {
                replay::lemma_current(log, more);
            }
            let last = |current: ClaimeeIdView, log: Seq<Reply>|
                Run::Done(stand(id, current), log);
            let current = dialogue::lemma_mapped(then, second, last, tail, state);
            transcripts::lemma_setup(tail, current);
            current
        },
        None => {
            dialogue::lemma_replies();
            transcripts::lemma_steps(then, tail, state);
            arbitrary()
        },
    }
}

/// The links of a session: `gh` names the repository, the branch was fetched, and git names
/// the commit before that of the remote branch. A session that someone claims was compared
/// with the working tree too.
pub open spec fn is_linked(
    d: Seq<Turn>,
    session_name: Seq<char>,
    links: SessionLinksView,
    current: ClaimeeIdView,
    k: int,
) -> bool {
    let branch = "jist-"@ + session::escaped(session_name);
    let original = dialogue::output_of(d[0].reply);
    &&& 4 <= k < d.len()
    &&& dialogue::answered(
        d[0],
        dialogue::gh_query(
            seq![
                "repo"@,
                "view"@,
                "--json"@,
                "nameWithOwner"@,
                "--jq"@,
                ".nameWithOwner"@,
            ],
        ),
    )
    &&& transcripts::is_fetch(d[1], branch)
    &&& dialogue::answered(
        d[2],
        dialogue::git_query(seq!["rev-parse"@, "refs/remotes/jist/"@ + branch + "^"@]),
    )
    &&& is_claim_state(d.subrange(3, k), branch, links.claim_state, current)
    &&& match links.sync_status {
        Some(counted) => {
            &&& !(links.claim_state is Unclaimed)
            &&& k + 4 == d.len()
            &&& pages::is_counting(d.subrange(k, k + 3), branch, counted)
        },
        None => links.claim_state is Unclaimed && k + 1 == d.len(),
    }
    &&& dialogue::answered(
        d.last(),
        dialogue::git_query(
            seq!["rev-parse"@, "--short"@, dialogue::output_of(d[2].reply)],
        ),
    )
    &&& text::split_once(original, '/') matches Some((owner, name)) && links.sessionbase_url
        == "https://jisthub.com/"@ + owner + "/"@ + name + "/session/"@ + session::escaped(
        session_name,
    )
    &&& links.sessionbase_commit_url == "https://github.com/"@ + original + "/commit/"@
        + dialogue::output_of(d.last().reply)
}

/// The end of the links, once the claim of the session is known.
spec fn finish_run(
    session_name: Seq<char>,
    original: Seq<char>,
    base: Seq<char>,
    state: ClaimStateView,
    log: Seq<Reply>,
) -> Run<SessionLinksView> {
    status::claimed_sync_status_run(session::branch_of(session_name), state, log).and_then(
        |sync_status: Option<SyncStatusView>, log: Seq<Reply>|
            status::links_run(session_name, original, base, state, sync_status, log),
    )
}

/// The links, once the branch was fetched.
spec fn stand_run(
    session_name: Seq<char>,
    original: Seq<char>,
    base: Seq<char>,
    log: Seq<Reply>,
) -> Run<SessionLinksView> {
    claim::claim_state_for_branch_run(session::branch_of(session_name), log).and_then(
        |state: ClaimStateView, log: Seq<Reply>|
            finish_run(session_name, original, base, state, log),
    )
}

/// What comes before the claim: the repository, the branch and its base.
spec fn reach_run(session_name: Seq<char>, log: Seq<Reply>) -> Run<(Seq<char>, Seq<char>)> {
    let jist_branch = session::branch_of(session_name);
    repository::original_repository_name_run(log).and_then(
        |original: Seq<char>, log: Seq<Reply>|
            session::fetch_jist_branch_run(jist_branch, log).and_then(
                |_done: (), log: Seq<Reply>|
                    session::base_commit_run(jist_branch, log).and_then(
                        |base: Seq<char>, log: Seq<Reply>| Run::Done((original, base), log),
                    ),
            ),
    )
}

#[verifier::spinoff_prover]
proof fn lemma_in_parts(session_name: Seq<char>, log: Seq<Reply>)
    ensures
        status::session_links_run(session_name, log) == reach_run(session_name, log).and_then(
            |reached: (Seq<char>, Seq<char>), log: Seq<Reply>|
                stand_run(session_name, reached.0, reached.1, log),
        ),
{
}

#[verifier::spinoff_prover]
proof fn lemma_reached(d: Seq<Turn>, session_name: Seq<char>, reached: (Seq<char>, Seq<char>))
    requires
        dialogue::succeeds(|log: Seq<Reply>| reach_run(session_name, log), d, reached),
    ensures
        d.len() == 3,
        dialogue::answered(
            d[0],
            dialogue::gh_query(
                seq![
                    "repo"@,
                    "view"@,
                    "--json"@,
                    "nameWithOwner"@,
                    "--jq"@,
                    ".nameWithOwner"@,
                ],
            ),
        ),
        reached.0 == dialogue::output_of(d[0].reply),
        transcripts::is_fetch(d[1], "jist-"@ + session::escaped(session_name)),
        dialogue::answered(
            d[2],
            dialogue::git_query(
                seq![
                    "rev-parse"@,
                    "refs/remotes/jist/"@ + ("jist-"@ + session::escaped(session_name)) + "^"@,
                ],
            ),
        ),
        reached.1 == dialogue::output_of(d[2].reply),
{
    dialogue::lemma_words();
    dialogue::lemma_replies();
    transcripts::lemma_fetch_spec(session::branch_of(session_name));
    transcripts::lemma_remote_ref(session::branch_of(session_name));
    transcripts::lemma_steps(|log: Seq<Reply>| reach_run(session_name, log), d, reached);
}

#[verifier::spinoff_prover]
proof fn lemma_finished(
    d: Seq<Turn>,
    session_name: Seq<char>,
    original: Seq<char>,
    base: Seq<char>,
    state: ClaimStateView,
    links: SessionLinksView,
)
    requires
        dialogue::succeeds(
            |log: Seq<Reply>| finish_run(session_name, original, base, state, log),
            d,
            links,
        ),
    ensures
        d.len() >= 1,
        links.claim_state == state,
        match links.sync_status {
            Some(counted) => !(state is Unclaimed) && d.len() == 4 && pages::is_counting(
                d.take(3),
                "jist-"@ + session::escaped(session_name),
                counted,
            ),
            None => state is Unclaimed && d.len() == 1,
        },
        dialogue::answered(
            d.last(),
            dialogue::git_query(seq!["rev-parse"@, "--short"@, base]),
        ),
        text::split_once(original, '/') matches Some((owner, name)) && links.sessionbase_url
            == "https://jisthub.com/"@ + owner + "/"@ + name + "/session/"@ + session::escaped(
            session_name,
        ),
        links.sessionbase_commit_url == "https://github.com/"@ + original + "/commit/"@
            + dialogue::output_of(d.last().reply),
{
    reveal(pages::is_counting);
    dialogue::lemma_words();
    dialogue::lemma_replies();
    transcripts::lemma_remote_ref(session::branch_of(session_name));
    transcripts::lemma_steps(
        |log: Seq<Reply>| finish_run(session_name, original, base, state, log),
        d,
        links,
    );
}

#[verifier::spinoff_prover]
proof fn lemma_reach_replays(session_name: Seq<char>, log: Seq<Reply>, more: Seq<Reply>)
    ensures
        replay::replays(|log: Seq<Reply>| reach_run(session_name, log), log, more),
{
    replay::lemma_log();
}

#[verifier::spinoff_prover]
proof fn lemma_stood(
    d: Seq<Turn>,
    session_name: Seq<char>,
    original: Seq<char>,
    base: Seq<char>,
    links: SessionLinksView,
) -> (at: (ClaimeeIdView, int))
    requires
        dialogue::succeeds(
            |log: Seq<Reply>| stand_run(session_name, original, base, log),
            d,
            links,
        ),
    ensures
        1 <= at.1 < d.len(),
        is_claim_state(
            d.take(at.1),
            "jist-"@ + session::escaped(session_name),
            links.claim_state,
            at.0,
        ),
        match links.sync_status {
            Some(counted) => !(links.claim_state is Unclaimed) && at.1 + 4 == d.len()
                && pages::is_counting(
                d.subrange(at.1, at.1 + 3),
                "jist-"@ + session::escaped(session_name),
                counted,
            ),
            None => links.claim_state is Unclaimed && at.1 + 1 == d.len(),
        },
        dialogue::answered(
            d.last(),
            dialogue::git_query(seq!["rev-parse"@, "--short"@, base]),
        ),
        text::split_once(original, '/') matches Some((owner, name)) && links.sessionbase_url
            == "https://jisthub.com/"@ + owner + "/"@ + name + "/session/"@ + session::escaped(
            session_name,
        ),
        links.sessionbase_commit_url == "https://github.com/"@ + original + "/commit/"@
            + dialogue::output_of(d.last().reply),
{
    let branch = session::branch_of(session_name);
    let first = |log: Seq<Reply>| claim::claim_state_for_branch_run(branch, log);
    assert forall|log: Seq<Reply>, more: Seq<Reply>| #[trigger]
        replay::replays(first, log, more) by {
        replay::lemma_claim_state(branch, log, more);
    }
    let cut = dialogue::lemma_split(
        |log: Seq<Reply>| stand_run(session_name, original, base, log),
        first,
        |state: ClaimStateView, log: Seq<Reply>|
            finish_run(session_name, original, base, state, log),
        d,
        links,
    );
    let n = cut.0;
    let current = law_claim_state_transcript(d.take(n), branch, cut.1);
    lemma_finished(d.skip(n), session_name, original, base, cut.1, links);
    assert(d.skip(n).last() == d.last());
    if links.sync_status is Some {
        assert(d.skip(n).take(3) =~= d.subrange(n, n + 3));
    }
    (current, n)
}

/// Whenever the links of a session are given, they come from what `gh` and git answered, and
/// the session was compared with the working tree only where someone claims it.
#[verifier::spinoff_prover]
pub proof fn law_session_links_transcript(
    d: Seq<Turn>,
    session_name: Seq<char>,
    links: SessionLinksView,
) -> (at: (ClaimeeIdView, int))
    requires
        dialogue::succeeds(
            |log: Seq<Reply>| status::session_links_run(session_name, log),
            d,
            links,
        ),
    ensures
        is_linked(d, session_name, links, at.0, at.1),
{
    let first = |log: Seq<Reply>| reach_run(session_name, log);
    assert forall|log: Seq<Reply>, more: Seq<Reply>| #[trigger]
        replay::replays(first, log, more) by {
        lemma_reach_replays(session_name, log, more);
    }
    let whole = |log: Seq<Reply>| status::session_links_run(session_name, log);
    let next = |reached: (Seq<char>, Seq<char>), log: Seq<Reply>|
        stand_run(session_name, reached.0, reached.1, log);
    assert forall|log: Seq<Reply>| #[trigger] whole(log) == first(log).and_then(next) by {
        lemma_in_parts(session_name, log);
    }
    let cut = dialogue::lemma_split(whole, first, next, d, links);
    lemma_reached(d.take(cut.0), session_name, cut.1);
    let tail = d.skip(3);
    let at = lemma_stood(tail, session_name, cut.1.0, cut.1.1, links);
    let n = at.1;
    assert(d.take(3)[0] == d[0] && d.take(3)[1] == d[1] && d.take(3)[2] == d[2]);
    assert(tail.take(n) =~= d.subrange(3, 3 + n));
    assert(tail.last() == d.last());
    if links.sync_status is Some {
        assert(tail.subrange(n, n + 3) =~= d.subrange(3 + n, 3 + n + 3));
    }
    (at.0, 3 + n)
}

} // verus!
