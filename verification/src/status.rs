//! What is shown of the sessions and of the one that is checked out.

use crate::claim;
use crate::claim::{ClaimInfo, ClaimInfoView, ClaimState, ClaimStateView, ClaimeeIdView};
use crate::exchange::{Log, Reply, Run, Stop};
use crate::repository;
use crate::session;
use crate::session::{SessionInfo, SessionInfoView, STATUS_SESSION_LIMIT};
use crate::style;
use crate::sync;
use crate::sync::{SyncStatus, SyncStatusView};
use crate::text;
use crate::time;
use vstd::prelude::*;

verus! {

pub open spec fn current_user_claim_message_run(claim: ClaimInfoView, log: Seq<Reply>) -> Run<
    Seq<char>,
> {
    let user = "Your user ("@ + claim::claimee_text(claim.claimee_id) + ") created its claim "@;
    match claim.claimed_at_utc_unix_seconds {
        Some(claimed_at) => time::elapsed_run(claimed_at, log).and_then(
            |elapsed: Seq<char>, log: Seq<Reply>| Run::Done(user + elapsed + " ago."@, log),
        ),
        None => Run::Done(user + "at an unknown time."@, log),
    }
}

/// What the user is told of a claim of their own.
pub fn format_current_user_claim_message(log: &mut Log, claim: &ClaimInfo) -> (result: Result<
    String,
    Stop,
>)
    ensures
        Run::of(result, final(log)@) == current_user_claim_message_run(claim@, old(log)@),
{
    let user = "Your user (".to_owned().concat(claim.claimee_id.to_string().as_str()).concat(
        ") created its claim ",
    );
    match claim.claimed_at_utc_unix_seconds {
        Some(claimed_at) => {
            let elapsed = time::format_elapsed_since_unix_seconds(log, claimed_at)?;
            Ok(user.concat(elapsed.as_str()).concat(" ago."))
        },
        None => Ok(user.concat("at an unknown time.")),
    }
}

pub open spec fn claim_duration_run(claim: ClaimInfoView, log: Seq<Reply>) -> Run<Seq<char>> {
    match claim.claimed_at_utc_unix_seconds {
        Some(claimed_at) => time::local_claim_timestamp_run(claimed_at, log).and_then(
            |timestamp: Seq<char>, log: Seq<Reply>|
                time::elapsed_run(claimed_at, log).and_then(
                    |elapsed: Seq<char>, log: Seq<Reply>|
                        Run::Done(
                            "Claimed since "@ + timestamp + " ("@ + elapsed + " ago)."@,
                            log,
                        ),
                ),
        ),
        None => Run::Done("Claimed for an unknown duration."@, log),
    }
}

/// Since when a session is claimed.
pub fn format_claim_duration(log: &mut Log, claim: &ClaimInfo) -> (result: Result<String, Stop>)
    ensures
        Run::of(result, final(log)@) == claim_duration_run(claim@, old(log)@),
{
    match claim.claimed_at_utc_unix_seconds {
        Some(claimed_at) => {
            let timestamp = time::format_local_claim_timestamp(log, claimed_at)?;
            let elapsed = time::format_elapsed_since_unix_seconds(log, claimed_at)?;
            Ok(
                "Claimed since ".to_owned().concat(timestamp.as_str()).concat(" (").concat(
                    elapsed.as_str(),
                ).concat(" ago)."),
            )
        },
        None => Ok("Claimed for an unknown duration.".to_owned()),
    }
}

/// Whether a claim is known to be that of the user of this machine.
pub open spec fn is_own_claim_run(claim: Option<ClaimInfoView>, log: Seq<Reply>) -> Run<bool> {
    match claim {
        Some(claim) => claim::is_known_current_setup_run(claim.claimee_id, log),
        None => Run::Done(false, log),
    }
}

fn is_own_claim(log: &mut Log, claim: Option<&ClaimInfo>) -> (result: Result<bool, Stop>)
    ensures
        Run::of(result, final(log)@) == is_own_claim_run(claim.deep_view(), old(log)@),
{
    match claim {
        Some(claim) => claim.claimee_id.is_known_current_setup(log),
        None => Ok(false),
    }
}

/// The first line of what is shown of the session that is checked out.
pub open spec fn banner_text(
    session_name: Seq<char>,
    short_base_commit: Seq<char>,
    own_claim: bool,
) -> Seq<char> {
    if own_claim {
        "You have "@ + style::green("claimed"@) + " session "@ + style::starred(session_name)
            + ", based on "@ + style::blue(short_base_commit) + "."@
    } else {
        "You are checked out on session "@ + style::starred(session_name) + ", based on "@
            + style::blue(short_base_commit) + "."@
    }
}

pub open spec fn working_commit_banner_run(
    session: SessionInfoView,
    short_base_commit: Seq<char>,
    claim: Option<ClaimInfoView>,
    log: Seq<Reply>,
) -> Run<Seq<char>> {
    is_own_claim_run(claim, log).and_then(
        |own: bool, log: Seq<Reply>|
            Run::Done(banner_text(session.name, short_base_commit, own), log),
    )
}

pub fn format_session_working_commit_banner(
    log: &mut Log,
    session: &SessionInfo,
    short_base_commit: &str,
    claim: Option<&ClaimInfo>,
) -> (result: Result<String, Stop>)
    ensures
        Run::of(result, final(log)@) == working_commit_banner_run(
            session@,
            short_base_commit@,
            claim.deep_view(),
            old(log)@,
        ),
{
    let name = style::format_selected_session_name(session.name.as_str());
    let base = style::format_blue(short_base_commit);
    if is_own_claim(log, claim)? {
        Ok(
            "You have ".to_owned().concat(style::format_green("claimed").as_str()).concat(
                " session ",
            ).concat(name.as_str()).concat(", based on ").concat(base.as_str()).concat("."),
        )
    } else {
        Ok(
            "You are checked out on session ".to_owned().concat(name.as_str()).concat(
                ", based on ",
            ).concat(base.as_str()).concat("."),
        )
    }
}

/// What is said of a claim: of one's own how to give it up, else whose it is and since when.
pub open spec fn claim_indicator_run(claim: ClaimInfoView, log: Seq<Reply>) -> Run<Seq<char>> {
    claim::is_known_current_setup_run(claim.claimee_id, log).and_then(
        |own: bool, log: Seq<Reply>|
            if own {
                current_user_claim_message_run(claim, log).and_then(
                    |message: Seq<char>, log: Seq<Reply>|
                        Run::Done(
                            message + "\nTo unclaim the current session, run "@ + style::blue(
                                "jist unclaim"@,
                            ) + "."@,
                            log,
                        ),
                )
            } else {
                claim_duration_run(claim, log).and_then(
                    |duration: Seq<char>, log: Seq<Reply>|
                        Run::Done(
                            "This session is "@ + style::red("claimed"@)
                                + " by another developer: "@ + claim::claimee_text(
                                claim.claimee_id,
                            ) + ".\n"@ + duration,
                            log,
                        ),
                )
            },
    )
}

pub open spec fn work_indicator_run(claim: Option<ClaimInfoView>, log: Seq<Reply>) -> Run<
    Seq<char>,
> {
    match claim {
        Some(claim) => claim_indicator_run(claim, log),
        None => Run::Done(
            "To work on this session, type "@ + style::blue("jist work"@) + "."@,
            log,
        ),
    }
}

/// What the user can do about the claim of a session.
pub fn format_session_work_indicator(log: &mut Log, claim: Option<&ClaimInfo>) -> (result: Result<
    String,
    Stop,
>)
    ensures
        Run::of(result, final(log)@) == work_indicator_run(claim.deep_view(), old(log)@),
{
    match claim {
        Some(claim) => if claim.claimee_id.is_known_current_setup(log)? {
            let message = format_current_user_claim_message(log, claim)?;
            Ok(
                message.concat("\nTo unclaim the current session, run ").concat(
                    style::format_blue("jist unclaim").as_str(),
                ).concat("."),
            )
        } else {
            let duration = format_claim_duration(log, claim)?;
            Ok(
                "This session is ".to_owned().concat(style::format_red("claimed").as_str()).concat(
                    " by another developer: ",
                ).concat(claim.claimee_id.to_string().as_str()).concat(".\n").concat(
                    duration.as_str(),
                ),
            )
        },
        None => Ok(
            "To work on this session, type ".to_owned().concat(
                style::format_blue("jist work").as_str(),
            ).concat("."),
        ),
    }
}

/// The sentence on synchronization, and when the next push is due, if one is.
pub open spec fn sync_section_run(
    status: SyncStatusView,
    push_deadline: Option<u128>,
    log: Seq<Reply>,
) -> Run<Seq<char>> {
    let message = sync::session_sync_text(status);
    match push_deadline {
        Some(deadline) => time::scheduled_sync_run(deadline, log).and_then(
            |scheduled: Seq<char>, log: Seq<Reply>|
                Run::Done(message + "\n"@ + scheduled, log),
        ),
        None => Run::Done(message, log),
    }
}

fn format_sync_section(log: &mut Log, status: &SyncStatus, push_deadline: Option<u128>) -> (result:
    Result<String, Stop>)
    ensures
        Run::of(result, final(log)@) == sync_section_run(status@, push_deadline, old(log)@),
{
    let message = sync::format_session_sync_status(status);
    match push_deadline {
        Some(deadline) => {
            let scheduled = time::format_scheduled_sync(log, deadline)?;
            Ok(message.concat("\n").concat(scheduled.as_str()))
        },
        None => Ok(message),
    }
}

/// The page of a session on the web, and the short name of the commit that it is based on.
pub open spec fn address_run(session: SessionInfoView, log: Seq<Reply>) -> Run<
    (Seq<char>, Seq<char>),
> {
    repository::original_repository_name_run(log).and_then(
        |original: Seq<char>, log: Seq<Reply>|
            Run::end(repository::session_url(original, session.name), log).and_then(
                |url: Seq<char>, log: Seq<Reply>|
                    repository::short_commit_run(session.base_commit, log).and_then(
                        |short_base: Seq<char>, log: Seq<Reply>| Run::Done((url, short_base), log),
                    ),
            ),
    )
}

/// How far a session is synchronized, and its claim.
pub open spec fn condition_run(session: SessionInfoView, log: Seq<Reply>) -> Run<
    (SyncStatusView, Option<ClaimInfoView>),
> {
    let jist_branch = session::branch_of(session.name);
    sync::sync_status_for_branch_run(jist_branch, log).and_then(
        |status: SyncStatusView, log: Seq<Reply>|
            claim::remote_claim_info_run(jist_branch, log).and_then(
                |claim: Option<ClaimInfoView>, log: Seq<Reply>| Run::Done((status, claim), log),
            ),
    )
}

/// What is said of the claim of a session: first the banner, at the end what can be done.
pub open spec fn claim_texts_run(
    session: SessionInfoView,
    short_base_commit: Seq<char>,
    claim: Option<ClaimInfoView>,
    log: Seq<Reply>,
) -> Run<(Seq<char>, Seq<char>)> {
    working_commit_banner_run(session, short_base_commit, claim, log).and_then(
        |banner: Seq<char>, log: Seq<Reply>|
            work_indicator_run(claim, log).and_then(
                |indicator: Seq<char>, log: Seq<Reply>| Run::Done((banner, indicator), log),
            ),
    )
}

/// The page on a session, once all is known of it.
pub open spec fn status_page_run(
    session: SessionInfoView,
    push_deadline: Option<u128>,
    url: Seq<char>,
    short_base_commit: Seq<char>,
    status: SyncStatusView,
    claim: Option<ClaimInfoView>,
    log: Seq<Reply>,
) -> Run<Seq<char>> {
    claim_texts_run(session, short_base_commit, claim, log).and_then(
        |texts: (Seq<char>, Seq<char>), log: Seq<Reply>|
            sync_section_run(status, push_deadline, log).and_then(
                |section: Seq<char>, log: Seq<Reply>|
                    Run::Done(
                        texts.0 + "\nVisit "@ + style::linked(url)
                            + " for detailed information.\n\n"@ + section + "\n\n"@ + texts.1
                            + "\n"@,
                        log,
                    ),
            ),
    )
}

/// The page on a session whose address is known.
pub open spec fn addressed_page_run(
    session: SessionInfoView,
    push_deadline: Option<u128>,
    url: Seq<char>,
    short_base_commit: Seq<char>,
    log: Seq<Reply>,
) -> Run<Seq<char>> {
    condition_run(session, log).and_then(
        |condition: (SyncStatusView, Option<ClaimInfoView>), log: Seq<Reply>|
            status_page_run(
                session,
                push_deadline,
                url,
                short_base_commit,
                condition.0,
                condition.1,
                log,
            ),
    )
}

pub open spec fn working_commit_status_run(
    session: SessionInfoView,
    push_deadline: Option<u128>,
    log: Seq<Reply>,
) -> Run<Seq<char>> {
    address_run(session, log).and_then(
        |address: (Seq<char>, Seq<char>), log: Seq<Reply>|
            addressed_page_run(session, push_deadline, address.0, address.1, log),
    )
}

/// The page on the session whose commit is checked out.
pub fn format_session_working_commit_status(
    log: &mut Log,
    session: &SessionInfo,
    push_deadline: Option<u128>,
) -> (result: Result<String, Stop>)
    ensures
        Run::of(result, final(log)@) == working_commit_status_run(
            session@,
            push_deadline,
            old(log)@,
        ),
{
    let original_repository = repository::original_repository_name(log)?;
    let session_url = match repository::jisthub_session_url(
        original_repository.as_str(),
        session.name.as_str(),
    ) {
        Ok(url) => url,
        Err(message) => return Err(Stop::Fail(message)),
    };
    let short_base_commit = repository::short_commit(log, session.base_commit.as_str())?;
    let jist_branch = session::jist_branch_name(session.name.as_str());
    let sync_status = sync::sync_status_for_branch(log, jist_branch.as_str())?;
    let claim = claim::remote_claim_info(log, jist_branch.as_str())?;
    let banner = format_session_working_commit_banner(
        log,
        session,
        short_base_commit.as_str(),
        claim.as_ref(),
    )?;
    let work_indicator = format_session_work_indicator(log, claim.as_ref())?;
    let sync_section = format_sync_section(log, &sync_status, push_deadline)?;
    Ok(
        banner.concat("\nVisit ").concat(
            style::format_url(session_url.as_str()).as_str(),
        ).concat(" for detailed information.\n\n").concat(sync_section.as_str()).concat(
            "\n\n",
        ).concat(work_indicator.as_str()).concat("\n"),
    )
}

/// What a list says of a session in brackets.
pub open spec fn list_metadata_run(
    session: SessionInfoView,
    current: bool,
    claimed: bool,
    log: Seq<Reply>,
) -> Run<Seq<char>> {
    let marks = (if current {
        style::green("current session"@) + ", "@
    } else {
        Seq::empty()
    }) + (if claimed {
        style::green("claimed"@) + ", "@
    } else {
        Seq::empty()
    });
    time::last_modified_run(session.modified_at_unix_seconds, log).and_then(
        |modified: Seq<char>, log: Seq<Reply>| Run::Done(marks + modified, log),
    )
}

pub fn format_session_list_metadata(
    log: &mut Log,
    session: &SessionInfo,
    current: bool,
    claimed: bool,
) -> (result: Result<String, Stop>)
    ensures
        Run::of(result, final(log)@) == list_metadata_run(
            session@,
            current,
            claimed,
            old(log)@,
        ),
{
    let current_mark = if current {
        style::format_green("current session").concat(", ")
    } else {
        String::new()
    };
    let claimed_mark = if claimed {
        style::format_green("claimed").concat(", ")
    } else {
        String::new()
    };
    let modified = time::format_last_modified(log, session.modified_at_unix_seconds)?;
    Ok(current_mark.concat(claimed_mark.as_str()).concat(modified.as_str()))
}

/// The line of a list on one session.
pub open spec fn list_entry_run(
    session: SessionInfoView,
    selected_session: Option<Seq<char>>,
    log: Seq<Reply>,
) -> Run<Seq<char>> {
    claim::remote_claim_info_run(session::branch_of(session.name), log).and_then(
        |claim: Option<ClaimInfoView>, log: Seq<Reply>|
            list_metadata_run(
                session,
                selected_session == Some(session.name),
                claim is Some,
                log,
            ).and_then(
                |metadata: Seq<char>, log: Seq<Reply>|
                    Run::Done(
                        "  - "@ + style::session_name_text(session.name, selected_session)
                            + " ("@ + metadata + ")\n"@,
                        log,
                    ),
            ),
    )
}

fn format_list_entry(log: &mut Log, session: &SessionInfo, selected_session: Option<&str>) -> (result:
    Result<String, Stop>)
    ensures
        Run::of(result, final(log)@) == list_entry_run(
            session@,
            selected_session.deep_view(),
            old(log)@,
        ),
{
    let current = match selected_session {
        Some(selected) => text::same(selected, session.name.as_str()),
        None => false,
    };
    let jist_branch = session::jist_branch_name(session.name.as_str());
    let claimed = claim::remote_claim_info(log, jist_branch.as_str())?.is_some();
    let metadata = format_session_list_metadata(log, session, current, claimed)?;
    Ok(
        "  - ".to_owned().concat(
            style::format_session_name(session.name.as_str(), selected_session).as_str(),
        ).concat(" (").concat(metadata.as_str()).concat(")\n"),
    )
}

/// The lines `shown`, and after them those on the sessions `rest`.
pub open spec fn list_entries_run(
    shown: Seq<char>,
    rest: Seq<SessionInfoView>,
    selected_session: Option<Seq<char>>,
    log: Seq<Reply>,
) -> Run<Seq<char>>
    decreases rest.len(),
{
    if rest.len() == 0 {
        Run::Done(shown, log)
    } else {
        list_entry_run(rest[0], selected_session, log).and_then(
            |entry: Seq<char>, log: Seq<Reply>|
                list_entries_run(shown + entry, rest.skip(1), selected_session, log),
        )
    }
}

/// How many of `count` sessions a list shows.
pub open spec fn shown_count(count: nat, limit: Option<usize>) -> nat {
    match limit {
        Some(limit) if limit < count => limit as nat,
        _ => count,
    }
}

/// The last line of a list that does not show all sessions.
pub open spec fn hidden_text(hidden: nat) -> Seq<char> {
    if hidden == 0 {
        Seq::empty()
    } else {
        "    +"@ + text::decimal(hidden) + " older "@ + style::plural("session"@, hidden) + "\n"@
    }
}

pub open spec fn session_list_run(
    sessions: Seq<SessionInfoView>,
    limit: Option<usize>,
    selected_session: Option<Seq<char>>,
    log: Seq<Reply>,
) -> Run<Seq<char>> {
    if sessions.len() == 0 {
        Run::Done("  <no sessions>\n"@, log)
    } else {
        let visible = shown_count(sessions.len(), limit);
        list_entries_run(
            Seq::empty(),
            sessions.take(visible as int),
            selected_session,
            log,
        ).and_then(
            |entries: Seq<char>, log: Seq<Reply>|
                Run::Done(entries + hidden_text((sessions.len() - visible) as nat), log),
        )
    }
}

/// A list of sessions, as far as the limit allows.
pub fn format_session_list(
    log: &mut Log,
    sessions: &[&SessionInfo],
    limit: Option<usize>,
    selected_session: Option<&str>,
) -> (result: Result<String, Stop>)
    ensures
        Run::of(result, final(log)@) == session_list_run(
            sessions.deep_view(),
            limit,
            selected_session.deep_view(),
            old(log)@,
        ),
{
    let ghost all = sessions.deep_view();
    if sessions.len() == 0 {
        return Ok("  <no sessions>\n".to_owned());
    }
    let visible_count: usize = match limit {
        Some(limit) if limit < sessions.len() => limit,
        _ => sessions.len(),
    };
    let ghost visible = all.take(visible_count as int);
    let ghost selected = selected_session.deep_view();
    let mut output = String::new();
    let mut i: usize = 0;
    assert(visible.skip(0) =~= visible);
    while i < visible_count
        invariant
            i <= visible_count <= sessions@.len(),
            all == sessions.deep_view(),
            visible == all.take(visible_count as int),
            selected == selected_session.deep_view(),
            visible_count == shown_count(all.len(), limit),
            all.len() > 0,
            list_entries_run(output@, visible.skip(i as int), selected, log@)
                == list_entries_run(Seq::empty(), visible, selected, old(log)@),
        decreases visible_count - i,
    {
        assert(visible.skip(i as int)[0] == sessions@[i as int]@);
        assert(visible.skip(i as int).skip(1) =~= visible.skip(i + 1));
        let entry = format_list_entry(log, sessions[i], selected_session)?;
        output = output.concat(entry.as_str());
        i += 1;
    }
    let hidden_count: usize = sessions.len() - visible_count;
    if hidden_count > 0 {
        Ok(
            output.concat(
                "    +".to_owned().concat(
                    text::decimal_text(hidden_count as u128).as_str(),
                ).concat(" older ").concat(style::pluralize("session", hidden_count)).concat(
                    "\n",
                ).as_str(),
            ),
        )
    } else {
        assert(output@ + hidden_text(0) =~= output@);
        Ok(output)
    }
}

/// A list of the first few sessions.
pub fn format_short_session_list(
    log: &mut Log,
    sessions: &[&SessionInfo],
    selected_session: Option<&str>,
) -> (result: Result<String, Stop>)
    ensures
        Run::of(result, final(log)@) == session_list_run(
            sessions.deep_view(),
            Some(STATUS_SESSION_LIMIT),
            selected_session.deep_view(),
            old(log)@,
        ),
{
    format_session_list(log, sessions, Some(STATUS_SESSION_LIMIT), selected_session)
}

/// A list of all sessions.
pub fn format_full_session_list(
    log: &mut Log,
    sessions: &[&SessionInfo],
    selected_session: Option<&str>,
) -> (result: Result<String, Stop>)
    ensures
        Run::of(result, final(log)@) == session_list_run(
            sessions.deep_view(),
            None,
            selected_session.deep_view(),
            old(log)@,
        ),
{
    format_session_list(log, sessions, None, selected_session)
}

/// References to sessions, in their order.
fn references<'a>(sessions: &'a Vec<SessionInfo>) -> (result: Vec<&'a SessionInfo>)
    ensures
        result.deep_view() == sessions.deep_view(),
{
    let mut result: Vec<&SessionInfo> = Vec::new();
    let mut i: usize = 0;
    while i < sessions.len()
        invariant
            i <= sessions@.len(),
            result@.len() == i,
            forall|j: int| 0 <= j < i ==> *(#[trigger] result@[j]) == sessions@[j],
        decreases sessions@.len() - i,
    {
        result.push(&sessions[i]);
        i += 1;
    }
    assert(result.deep_view() =~= sessions.deep_view());
    result
}

/// The page with all of `sessions`.
pub open spec fn all_page_run(
    sessions: Seq<SessionInfoView>,
    selected: Option<Seq<char>>,
    log: Seq<Reply>,
) -> Run<Seq<char>> {
    session_list_run(sessions, None, selected, log).and_then(
        |list: Seq<char>, log: Seq<Reply>| Run::Done("Sessions:\n"@ + list, log),
    )
}

/// The page with all of `sessions`, for what is checked out.
pub open spec fn all_among_run(sessions: Seq<SessionInfoView>, log: Seq<Reply>) -> Run<Seq<char>> {
    session::checked_out_among_run(sessions, log).and_then(
        |selected: Option<Seq<char>>, log: Seq<Reply>| all_page_run(sessions, selected, log),
    )
}

pub open spec fn render_all_sessions_run(log: Seq<Reply>) -> Run<Seq<char>> {
    session::list_sessions_run(log).and_then(
        |sessions: Seq<SessionInfoView>, log: Seq<Reply>| all_among_run(sessions, log),
    )
}

/// The page with all sessions.
pub fn render_all_sessions(log: &mut Log) -> (result: Result<String, Stop>)
    ensures
        Run::of(result, final(log)@) == render_all_sessions_run(old(log)@),
{
    let sessions = session::list_sessions(log)?;
    let current_head = session::head(log)?;
    let selected_session = session::selected_session_name(
        log,
        sessions.as_slice(),
        current_head.as_str(),
    )?;
    let session_refs = references(&sessions);
    let list = format_full_session_list(
        log,
        session_refs.as_slice(),
        as_text(&selected_session),
    )?;
    Ok("Sessions:\n".to_owned().concat(list.as_str()))
}

fn as_text<'a>(value: &'a Option<String>) -> (result: Option<&'a str>)
    ensures
        result.deep_view() == value.deep_view(),
{
    match value {
        Some(value) => Some(value.as_str()),
        None => None,
    }
}

/// The sessions based on `commit`.
pub open spec fn based_on(sessions: Seq<SessionInfoView>, commit: Seq<char>) -> Seq<
    SessionInfoView,
> {
    sessions.filter(|session: SessionInfoView| session.base_commit == commit)
}

/// The sessions based on another commit than `commit`.
pub open spec fn not_based_on(sessions: Seq<SessionInfoView>, commit: Seq<char>) -> Seq<
    SessionInfoView,
> {
    sessions.filter(|session: SessionInfoView| session.base_commit != commit)
}

/// Parts the sessions by whether they are based on a commit.
fn part_by_base<'a>(sessions: &'a Vec<SessionInfo>, commit: &str) -> (result: (
    Vec<&'a SessionInfo>,
    Vec<&'a SessionInfo>,
))
    ensures
        result.0.deep_view() == based_on(sessions.deep_view(), commit@),
        result.1.deep_view() == not_based_on(sessions.deep_view(), commit@),
{
    let ghost all = sessions.deep_view();
    let ghost is_based = |session: SessionInfoView| session.base_commit == commit@;
    let ghost is_other = |session: SessionInfoView| session.base_commit != commit@;
    let mut based: Vec<&SessionInfo> = Vec::new();
    let mut other: Vec<&SessionInfo> = Vec::new();
    let mut i: usize = 0;
    proof {
        reveal(Seq::filter);
        assert(based.deep_view() =~= all.take(0).filter(is_based));
        assert(other.deep_view() =~= all.take(0).filter(is_other));
    }
    while i < sessions.len()
        invariant
            i <= sessions@.len(),
            all == sessions.deep_view(),
            is_based == (|session: SessionInfoView| session.base_commit == commit@),
            is_other == (|session: SessionInfoView| session.base_commit != commit@),
            based.deep_view() == all.take(i as int).filter(is_based),
            other.deep_view() == all.take(i as int).filter(is_other),
        decreases sessions@.len() - i,
    {
        let session = &sessions[i];
        let ghost based_before = based.deep_view();
        let ghost other_before = other.deep_view();
        if text::same(session.base_commit.as_str(), commit) {
            based.push(session);
            assert(based.deep_view() =~= based_before.push(session@));
        } else {
            other.push(session);
            assert(other.deep_view() =~= other_before.push(session@));
        }
        proof {
            reveal(Seq::filter);
            assert(all.take(i + 1).drop_last() =~= all.take(i as int));
            assert(all.take(i + 1).last() == session@);
        }
        i += 1;
    }
    assert(all.take(i as int) =~= all);
    (based, other)
}

/// The page where the commit of a session is checked out.
pub open spec fn on_session_run(
    session: SessionInfoView,
    sessions: Seq<SessionInfoView>,
    selected: Option<Seq<char>>,
    log: Seq<Reply>,
) -> Run<Seq<char>> {
    working_commit_status_run(session, None, log).and_then(
        |page: Seq<char>, log: Seq<Reply>|
            session_list_run(sessions, Some(STATUS_SESSION_LIMIT), selected, log).and_then(
                |list: Seq<char>, log: Seq<Reply>|
                    Run::Done(page + "\n"@ + "Sessions:\n"@ + list, log),
            ),
    )
}

/// The page where the commit of no session is checked out.
pub open spec fn off_session_run(
    head: Seq<char>,
    short_head: Seq<char>,
    sessions: Seq<SessionInfoView>,
    selected: Option<Seq<char>>,
    log: Seq<Reply>,
) -> Run<Seq<char>> {
    session_list_run(
        based_on(sessions, head),
        Some(STATUS_SESSION_LIMIT),
        selected,
        log,
    ).and_then(
        |based: Seq<char>, log: Seq<Reply>|
            session_list_run(
                not_based_on(sessions, head),
                Some(STATUS_SESSION_LIMIT),
                selected,
                log,
            ).and_then(
                |other: Seq<char>, log: Seq<Reply>|
                    Run::Done(
                        "You are on git commit "@ + style::blue(short_head) + ".\n"@
                            + "The following sessions are "@ + style::green(
                            "based on this commit"@,
                        ) + ":\n"@ + based + "\n"@ + "Other sessions in this repository:\n"@
                            + other + "\n"@ + "To display all sessions, run "@ + style::blue(
                            "jist list"@,
                        ) + ".\n"@ + "To work on a session, run "@ + style::blue(
                            "jist work <session name>"@,
                        ) + ".\n"@,
                        log,
                    ),
            ),
    )
}

/// The page for the commit `head`, which is that of a session or is not.
pub open spec fn page_at_run(
    head: Seq<char>,
    short_head: Seq<char>,
    sessions: Seq<SessionInfoView>,
    selected: Option<Seq<char>>,
    log: Seq<Reply>,
) -> Run<Seq<char>> {
    match session::session_at(sessions, head) {
        Some(session) => on_session_run(session, sessions, selected, log),
        None => off_session_run(head, short_head, sessions, selected, log),
    }
}

/// The commit that is checked out, its short name, and the session that is selected.
pub open spec fn standing_run(sessions: Seq<SessionInfoView>, log: Seq<Reply>) -> Run<
    (Seq<char>, Seq<char>, Option<Seq<char>>),
> {
    session::head_run(log).and_then(
        |head: Seq<char>, log: Seq<Reply>|
            repository::short_commit_run("HEAD"@, log).and_then(
                |short_head: Seq<char>, log: Seq<Reply>|
                    session::selected_session_name_run(sessions, head, log).and_then(
                        |selected: Option<Seq<char>>, log: Seq<Reply>|
                            Run::Done((head, short_head, selected), log),
                    ),
            ),
    )
}

/// The page for what is checked out, once the sessions are known.
pub open spec fn status_among_run(sessions: Seq<SessionInfoView>, log: Seq<Reply>) -> Run<
    Seq<char>,
> {
    standing_run(sessions, log).and_then(
        |standing: (Seq<char>, Seq<char>, Option<Seq<char>>), log: Seq<Reply>|
            page_at_run(standing.0, standing.1, sessions, standing.2, log),
    )
}

pub open spec fn render_status_run(log: Seq<Reply>) -> Run<Seq<char>> {
    session::list_sessions_run(log).and_then(
        |sessions: Seq<SessionInfoView>, log: Seq<Reply>| status_among_run(sessions, log),
    )
}

/// The page on where the user stands.
pub fn render_status(log: &mut Log) -> (result: Result<String, Stop>)
    ensures
        Run::of(result, final(log)@) == render_status_run(old(log)@),
{
    let sessions = session::list_sessions(log)?;
    let current_head = session::head(log)?;
    let current_short_head = repository::short_commit(log, "HEAD")?;
    let selected_session = session::selected_session_name(
        log,
        sessions.as_slice(),
        current_head.as_str(),
    )?;
    let selected = as_text(&selected_session);
    if let Some(session) = session::find_session_at(sessions.as_slice(), current_head.as_str()) {
        let page = format_session_working_commit_status(log, session, None)?;
        let session_refs = references(&sessions);
        let list = format_short_session_list(log, session_refs.as_slice(), selected)?;
        return Ok(page.concat("\n").concat("Sessions:\n").concat(list.as_str()));
    }
    let (based_on_current, other_sessions) = part_by_base(&sessions, current_head.as_str());
    let output = "You are on git commit ".to_owned().concat(
        style::format_blue(current_short_head.as_str()).as_str(),
    ).concat(".\n").concat("The following sessions are ").concat(
        style::format_green("based on this commit").as_str(),
    ).concat(":\n");
    let based = format_short_session_list(log, based_on_current.as_slice(), selected)?;
    let other = format_short_session_list(log, other_sessions.as_slice(), selected)?;
    Ok(
        output.concat(based.as_str()).concat("\n").concat(
            "Other sessions in this repository:\n",
        ).concat(other.as_str()).concat("\n").concat("To display all sessions, run ").concat(
            style::format_blue("jist list").as_str(),
        ).concat(".\n").concat("To work on a session, run ").concat(
            style::format_blue("jist work <session name>").as_str(),
        ).concat(".\n"),
    )
}

/// The page for what is checked out during work, once the sessions are known.
pub open spec fn work_status_among_run(
    sessions: Seq<SessionInfoView>,
    push_deadline: Option<u128>,
    log: Seq<Reply>,
) -> Run<Seq<char>> {
    session::head_run(log).and_then(
        |head: Seq<char>, log: Seq<Reply>|
            match session::session_at(sessions, head) {
                Some(session) => working_commit_status_run(session, push_deadline, log),
                None => render_status_run(log),
            },
    )
}

pub open spec fn render_work_session_status_run(
    push_deadline: Option<u128>,
    log: Seq<Reply>,
) -> Run<Seq<char>> {
    session::list_sessions_run(log).and_then(
        |sessions: Seq<SessionInfoView>, log: Seq<Reply>|
            work_status_among_run(sessions, push_deadline, log),
    )
}

/// The page that is shown while the user works on a session.
pub fn render_work_session_status(log: &mut Log, push_deadline: Option<u128>) -> (result: Result<
    String,
    Stop,
>)
    ensures
        Run::of(result, final(log)@) == render_work_session_status_run(
            push_deadline,
            old(log)@,
        ),
{
    let sessions = session::list_sessions(log)?;
    let current_head = session::head(log)?;
    if let Some(session) = session::find_session_at(sessions.as_slice(), current_head.as_str()) {
        format_session_working_commit_status(log, session, push_deadline)
    } else {
        render_status(log)
    }
}

/// The pages of a session and of the commit that it is based on, and how it stands.
#[derive(Debug, PartialEq, Eq)]
pub struct SessionLinks {
    pub sessionbase_url: String,
    pub sessionbase_commit_url: String,
    pub sync_status: Option<SyncStatus>,
    pub claim_state: ClaimState,
}

#[verifier::ext_equal]
pub struct SessionLinksView {
    pub sessionbase_url: Seq<char>,
    pub sessionbase_commit_url: Seq<char>,
    pub sync_status: Option<SyncStatusView>,
    pub claim_state: ClaimStateView,
}

impl View for SessionLinks {
    type V = SessionLinksView;

    open spec fn view(&self) -> SessionLinksView {
        SessionLinksView {
            sessionbase_url: self.sessionbase_url@,
            sessionbase_commit_url: self.sessionbase_commit_url@,
            sync_status: self.sync_status.deep_view(),
            claim_state: self.claim_state@,
        }
    }
}

impl DeepView for SessionLinks {
    type V = SessionLinksView;

    open spec fn deep_view(&self) -> SessionLinksView {
        self@
    }
}

/// How far a session is synchronized; not asked of one that nobody claims.
pub open spec fn claimed_sync_status_run(
    jist_branch: Seq<char>,
    claim_state: ClaimStateView,
    log: Seq<Reply>,
) -> Run<Option<SyncStatusView>> {
    if claim_state is Unclaimed {
        Run::Done(None, log)
    } else {
        sync::sync_status_for_branch_run(jist_branch, log).and_then(
            |status: SyncStatusView, log: Seq<Reply>| Run::Done(Some(status), log),
        )
    }
}

pub open spec fn session_links_run(session_name: Seq<char>, log: Seq<Reply>) -> Run<
    SessionLinksView,
> {
    let jist_branch = session::branch_of(session_name);
    repository::original_repository_name_run(log).and_then(
        |original: Seq<char>, log: Seq<Reply>|
            session::fetch_jist_branch_run(jist_branch, log).and_then(
                |_done: (), log: Seq<Reply>|
                    session::base_commit_run(jist_branch, log).and_then(
                        |base: Seq<char>, log: Seq<Reply>|
                            claim::claim_state_for_branch_run(jist_branch, log).and_then(
                                |claim_state: ClaimStateView, log: Seq<Reply>|
                                    claimed_sync_status_run(
                                        jist_branch,
                                        claim_state,
                                        log,
                                    ).and_then(
                                        |sync_status: Option<SyncStatusView>, log: Seq<Reply>|
                                            links_run(
                                                session_name,
                                                original,
                                                base,
                                                claim_state,
                                                sync_status,
                                                log,
                                            ),
                                    ),
                            ),
                    ),
            ),
    )
}

/// The links, once all is known of the session.
pub open spec fn links_run(
    session_name: Seq<char>,
    original: Seq<char>,
    base: Seq<char>,
    claim_state: ClaimStateView,
    sync_status: Option<SyncStatusView>,
    log: Seq<Reply>,
) -> Run<SessionLinksView> {
    Run::end(repository::session_url(original, session_name), log).and_then(
        |sessionbase_url: Seq<char>, log: Seq<Reply>|
            repository::github_short_commit_url_run(original, base, log).and_then(
                |sessionbase_commit_url: Seq<char>, log: Seq<Reply>|
                    Run::Done(
                        SessionLinksView {
                            sessionbase_url,
                            sessionbase_commit_url,
                            sync_status,
                            claim_state,
                        },
                        log,
                    ),
            ),
    )
}

pub fn session_links(log: &mut Log, session_name: &str) -> (result: Result<SessionLinks, Stop>)
    ensures
        Run::of(result, final(log)@) == session_links_run(session_name@, old(log)@),
{
    let original_repository = repository::original_repository_name(log)?;
    let jist_branch = session::jist_branch_name(session_name);
    session::fetch_jist_branch(log, jist_branch.as_str())?;
    let diffbase = session::base_commit(log, jist_branch.as_str())?;
    let claim_state = claim::claim_state_for_branch(log, jist_branch.as_str())?;
    let sync_status = match claim_state {
        ClaimState::Unclaimed => None,
        _ => Some(sync::sync_status_for_branch(log, jist_branch.as_str())?),
    };
    let sessionbase_url = match repository::jisthub_session_url(
        original_repository.as_str(),
        session_name,
    ) {
        Ok(url) => url,
        Err(message) => return Err(Stop::Fail(message)),
    };
    let sessionbase_commit_url = repository::github_short_commit_url(
        log,
        original_repository.as_str(),
        diffbase.as_str(),
    )?;
    Ok(SessionLinks { sessionbase_url, sessionbase_commit_url, sync_status, claim_state })
}

/// How the page on a session begins that the user of this machine claims.
pub open spec fn own_session_text(
    session_name: Seq<char>,
    sessionbase_url: Seq<char>,
    sessionbase_commit_url: Seq<char>,
) -> Seq<char> {
    "You have "@ + style::green("claimed"@) + " the working commit for session "@
        + style::starred_bold(session_name) + ".\n"@ + style::linked(sessionbase_url)
        + "\n\nThis session is based on:\n"@ + style::linked(sessionbase_commit_url) + "\n"@
}

/// How a session stands to the user of this machine, as a page.
pub open spec fn session_state_text(
    session_name: Seq<char>,
    claim_state: ClaimStateView,
    sync_status: Option<SyncStatusView>,
    sessionbase_url: Seq<char>,
    sessionbase_commit_url: Seq<char>,
) -> Seq<char> {
    match claim_state {
        ClaimStateView::Unclaimed => "You are on the working commit for session "@
            + style::starred(session_name) + ".\n"@ + style::linked(sessionbase_url)
            + "\n\nThis session is based on:\n"@ + style::linked(sessionbase_commit_url)
            + "\n\nTo work on this session, run "@ + style::green("jist claim"@) + ".\n"@,
        ClaimStateView::ClaimedByCurrentSetup => match sync_status {
            Some(status) => own_session_text(
                session_name,
                sessionbase_url,
                sessionbase_commit_url,
            ) + "\n"@ + sync::session_sync_text(status) + "\n"@,
            None => own_session_text(session_name, sessionbase_url, sessionbase_commit_url),
        },
        ClaimStateView::ClaimedByOther(claimee_id) => "Session "@ + session_name + " is "@
            + style::green("claimed"@) + " by `"@ + claim::claimee_text(claimee_id) + "`.\n"@,
    }
}

pub fn format_session_state_message(
    session_name: &str,
    claim_state: &ClaimState,
    sync_status: Option<&SyncStatus>,
    sessionbase_url: &str,
    sessionbase_commit_url: &str,
) -> (result: String)
    ensures
        result@ == session_state_text(
            session_name@,
            claim_state@,
            sync_status.deep_view(),
            sessionbase_url@,
            sessionbase_commit_url@,
        ),
{
    let session_link = style::format_url(sessionbase_url);
    let commit_link = style::format_url(sessionbase_commit_url);
    match claim_state {
        ClaimState::Unclaimed => "You are on the working commit for session ".to_owned().concat(
            style::format_current_session_name(session_name, false).as_str(),
        ).concat(".\n").concat(session_link.as_str()).concat(
            "\n\nThis session is based on:\n",
        ).concat(commit_link.as_str()).concat("\n\nTo work on this session, run ").concat(
            style::format_command("jist claim").as_str(),
        ).concat(".\n"),
        ClaimState::ClaimedByCurrentSetup => {
            let page = "You have ".to_owned().concat(
                style::format_green("claimed").as_str(),
            ).concat(" the working commit for session ").concat(
                style::format_current_session_name(session_name, true).as_str(),
            ).concat(".\n").concat(session_link.as_str()).concat(
                "\n\nThis session is based on:\n",
            ).concat(commit_link.as_str()).concat("\n");
            match sync_status {
                Some(status) => page.concat("\n").concat(
                    sync::format_session_sync_status(status).as_str(),
                ).concat("\n"),
                None => page,
            }
        },
        ClaimState::ClaimedByOther(claimee_id) => "Session ".to_owned().concat(
            session_name,
        ).concat(" is ").concat(style::format_green("claimed").as_str()).concat(" by `").concat(
            claimee_id.to_string().as_str(),
        ).concat("`.\n"),
    }
}

/// How a session stands to the user of this machine, in brief.
pub open spec fn claim_state_text(claim_state: ClaimStateView) -> Seq<char> {
    match claim_state {
        ClaimStateView::Unclaimed => "\x1b[31mUnclaimed\x1b[0m"@,
        ClaimStateView::ClaimedByCurrentSetup =>
            "\x1b[32mClaimed by this machine and user\x1b[0m"@,
        ClaimStateView::ClaimedByOther(claimee_id) => "\x1b[31mClaimed by `"@
            + claim::claimee_text(claimee_id) + "`\x1b[0m"@,
    }
}

pub fn format_claim_state(claim_state: &ClaimState) -> (result: String)
    ensures
        result@ == claim_state_text(claim_state@),
{
    match claim_state {
        ClaimState::Unclaimed => "\x1b[31mUnclaimed\x1b[0m".to_owned(),
        ClaimState::ClaimedByCurrentSetup =>
            "\x1b[32mClaimed by this machine and user\x1b[0m".to_owned(),
        ClaimState::ClaimedByOther(claimee_id) => "\x1b[31mClaimed by `".to_owned().concat(
            claimee_id.to_string().as_str(),
        ).concat("`\x1b[0m"),
    }
}

} // verus!
