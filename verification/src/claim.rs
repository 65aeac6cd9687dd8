//! Who claims a session, and the metadata file that says so.

use crate::ask;
use crate::command;
use crate::exchange;
use crate::exchange::{Args, Log, Program, Reply, Run, Stop};
use crate::text;
use crate::time;
use vstd::prelude::*;

verus! {

/// The git remote that holds the sessions.
pub const JIST_REMOTE: &'static str = "jist";

/// A user on a machine.
#[derive(Debug, PartialEq, Eq)]
pub struct ClaimeeId {
    pub user: String,
    pub machine: String,
}

#[verifier::ext_equal]
pub struct ClaimeeIdView {
    pub user: Seq<char>,
    pub machine: Seq<char>,
}

impl View for ClaimeeId {
    type V = ClaimeeIdView;

    open spec fn view(&self) -> ClaimeeIdView {
        ClaimeeIdView { user: self.user@, machine: self.machine@ }
    }
}

impl DeepView for ClaimeeId {
    type V = ClaimeeIdView;

    open spec fn deep_view(&self) -> ClaimeeIdView {
        self@
    }
}

/// The claim of a session: who made it, and when, if that is known.
#[derive(Debug, PartialEq, Eq)]
pub struct ClaimInfo {
    pub claimee_id: ClaimeeId,
    pub claimed_at_utc_unix_seconds: Option<i64>,
}

#[verifier::ext_equal]
pub struct ClaimInfoView {
    pub claimee_id: ClaimeeIdView,
    pub claimed_at_utc_unix_seconds: Option<i64>,
}

impl View for ClaimInfo {
    type V = ClaimInfoView;

    open spec fn view(&self) -> ClaimInfoView {
        ClaimInfoView {
            claimee_id: self.claimee_id@,
            claimed_at_utc_unix_seconds: self.claimed_at_utc_unix_seconds,
        }
    }
}

impl DeepView for ClaimInfo {
    type V = ClaimInfoView;

    open spec fn deep_view(&self) -> ClaimInfoView {
        self@
    }
}

pub open spec fn machine_id_run(log: Seq<Reply>) -> Run<Seq<char>> {
    ask::variable_run("COMPUTERNAME"@, log).and_then(
        |computer: Option<Seq<char>>, log: Seq<Reply>|
            match computer {
                Some(value) => Run::Done(text::trimmed(value), log),
                None => ask::variable_run("HOSTNAME"@, log).and_then(
                    |host: Option<Seq<char>>, log: Seq<Reply>|
                        match host {
                            Some(value) => Run::Done(text::trimmed(value), log),
                            None => command::command_stdout_run(Program::Hostname, log).and_then(
                                |printed: Option<Seq<char>>, log: Seq<Reply>|
                                    match printed {
                                        Some(value) => Run::Done(text::trimmed(value), log),
                                        None => Run::Failed(
                                            "Could not determine machine id."@,
                                            log,
                                        ),
                                    },
                            ),
                        },
                ),
            },
    )
}

/// The name of this machine.
pub fn machine_id(log: &mut Log) -> (result: Result<String, Stop>)
    ensures
        Run::of(result, final(log)@) == machine_id_run(old(log)@),
{
    if let Some(value) = ask::variable(log, "COMPUTERNAME")? {
        return Ok(text::trim(value.as_str()).to_owned());
    }
    if let Some(value) = ask::variable(log, "HOSTNAME")? {
        return Ok(text::trim(value.as_str()).to_owned());
    }
    match command::command_stdout(log, Program::Hostname)? {
        Some(value) => Ok(text::trim(value.as_str()).to_owned()),
        None => Err(Stop::Fail("Could not determine machine id.".to_owned())),
    }
}

pub open spec fn local_machine_user_run(log: Seq<Reply>) -> Run<Seq<char>> {
    ask::variable_run("USERNAME"@, log).and_then(
        |name: Option<Seq<char>>, log: Seq<Reply>|
            match name {
                Some(value) => Run::Done(value, log),
                None => ask::variable_run("USER"@, log).and_then(
                    |user: Option<Seq<char>>, log: Seq<Reply>|
                        match user {
                            Some(value) => Run::Done(value, log),
                            None => Run::Failed("Could not determine local machine user."@, log),
                        },
                ),
            },
    )
}

/// The name of the user of this machine.
pub fn local_machine_user(log: &mut Log) -> (result: Result<String, Stop>)
    ensures
        Run::of(result, final(log)@) == local_machine_user_run(old(log)@),
{
    if let Some(value) = ask::variable(log, "USERNAME")? {
        return Ok(value);
    }
    match ask::variable(log, "USER")? {
        Some(value) => Ok(value),
        None => Err(Stop::Fail("Could not determine local machine user.".to_owned())),
    }
}

pub open spec fn current_run(log: Seq<Reply>) -> Run<ClaimeeIdView> {
    local_machine_user_run(log).and_then(
        |user: Seq<char>, log: Seq<Reply>|
            machine_id_run(log).and_then(
                |machine: Seq<char>, log: Seq<Reply>|
                    Run::Done(ClaimeeIdView { user, machine }, log),
            ),
    )
}

/// The claimee that a text of the form `user@machine` names. The user ends at the first `@`;
/// neither part may be empty.
pub open spec fn parsed_claimee(value: Seq<char>) -> Option<ClaimeeIdView> {
    match text::split_once(value, '@') {
        Some((user, machine)) if user.len() > 0 && machine.len() > 0 => Some(
            ClaimeeIdView { user, machine },
        ),
        _ => None,
    }
}

pub open spec fn invalid_claimee_text(value: Seq<char>) -> Seq<char> {
    "Invalid claimee id `"@ + value + "`."@
}

/// A claimee in words.
pub open spec fn claimee_text(id: ClaimeeIdView) -> Seq<char> {
    id.user + "@"@ + id.machine
}

pub open spec fn is_current_setup_run(id: ClaimeeIdView, log: Seq<Reply>) -> Run<bool> {
    current_run(log).and_then(
        |current: ClaimeeIdView, log: Seq<Reply>| Run::Done(id == current, log),
    )
}

/// Like `is_current_setup_run`, but a setup that cannot be found is not the current one.
pub open spec fn is_known_current_setup_run(id: ClaimeeIdView, log: Seq<Reply>) -> Run<bool> {
    is_current_setup_run(id, log).or_else(
        |message: Seq<char>, log: Seq<Reply>| Run::Done(false, log),
    )
}

pub open spec fn wrong_owner_text(id: ClaimeeIdView, current: Option<ClaimeeIdView>) -> Seq<char> {
    match current {
        Some(current) => "This JIST session is claimed by `"@ + claimee_text(id) + "`, not `"@
            + claimee_text(current) + "`."@,
        None => "This JIST session is claimed by `"@ + claimee_text(id) + "`."@,
    }
}

pub open spec fn wrong_owner_message_run(id: ClaimeeIdView, log: Seq<Reply>) -> Run<Seq<char>> {
    current_run(log).and_then(
        |current: ClaimeeIdView, log: Seq<Reply>|
            Run::Done(wrong_owner_text(id, Some(current)), log),
    ).or_else(
        |message: Seq<char>, log: Seq<Reply>| Run::Done(wrong_owner_text(id, None), log),
    )
}

impl ClaimeeId {
    /// The user of this machine.
    pub fn current(log: &mut Log) -> (result: Result<ClaimeeId, Stop>)
        ensures
            Run::of(result, final(log)@) == current_run(old(log)@),
    {
        let user = local_machine_user(log)?;
        let machine = machine_id(log)?;
        Ok(ClaimeeId { user, machine })
    }

    /// Reads a text of the form `user@machine`.
    pub fn parse(value: &str) -> (result: Result<ClaimeeId, String>)
        ensures
            match result {
                Ok(id) => parsed_claimee(value@) == Some(id@),
                Err(message) => parsed_claimee(value@) is None && message@
                    == invalid_claimee_text(value@),
            },
    {
        match text::cut(value, '@') {
            Some((user, machine)) if !user.is_empty() && !machine.is_empty() => Ok(
                ClaimeeId { user: user.to_owned(), machine: machine.to_owned() },
            ),
            _ => Err("Invalid claimee id `".to_owned().concat(value).concat("`.")),
        }
    }

    /// Whether this is the user of this machine.
    pub fn is_current_setup(&self, log: &mut Log) -> (result: Result<bool, Stop>)
        ensures
            Run::of(result, final(log)@) == is_current_setup_run(self@, old(log)@),
    {
        let current = ClaimeeId::current(log)?;
        Ok(self.user == current.user && self.machine == current.machine)
    }

    /// Whether this is known to be the user of this machine.
    pub fn is_known_current_setup(&self, log: &mut Log) -> (result: Result<bool, Stop>)
        ensures
            Run::of(result, final(log)@) == is_known_current_setup_run(self@, old(log)@),
    {
        match self.is_current_setup(log) {
            Err(Stop::Fail(_)) => Ok(false),
            result => result,
        }
    }

    /// What somebody else is told who needs the claim.
    pub fn wrong_owner_message(&self, log: &mut Log) -> (result: Result<String, Stop>)
        ensures
            Run::of(result, final(log)@) == wrong_owner_message_run(self@, old(log)@),
    {
        let owner = self.to_string();
        match ClaimeeId::current(log) {
            Ok(current) => Ok(
                "This JIST session is claimed by `".to_owned().concat(owner.as_str()).concat(
                    "`, not `",
                ).concat(current.to_string().as_str()).concat("`."),
            ),
            Err(Stop::Fail(_)) => Ok(
                "This JIST session is claimed by `".to_owned().concat(owner.as_str()).concat(
                    "`.",
                ),
            ),
            Err(Stop::Ask(request)) => Err(Stop::Ask(request)),
        }
    }

    /// The claimee in the form `user@machine`.
    pub fn to_string(&self) -> (result: String)
        ensures
            result@ == claimee_text(self@),
    {
        self.user.clone().concat("@").concat(self.machine.as_str())
    }
}

/// The value of the first of `lines` that has the form `key=value`.
pub open spec fn value_in_lines(lines: Seq<Seq<char>>, key: Seq<char>) -> Option<Seq<char>>
    decreases lines.len(),
{
    if lines.len() == 0 {
        None
    } else {
        match text::split_once(lines[0], '=') {
            Some((line_key, value)) if line_key == key => Some(value),
            _ => value_in_lines(lines.skip(1), key),
        }
    }
}

/// The value that `metadata` gives for `key`.
pub open spec fn value_in(metadata: Seq<char>, key: Seq<char>) -> Option<Seq<char>> {
    value_in_lines(text::lines(metadata), key)
}

pub fn metadata_value<'a>(metadata: &'a str, key: &str) -> (result: Option<&'a str>)
    ensures
        result.deep_view() == value_in(metadata@, key@),
{
    let chars = text::chars_of(metadata);
    let ranges = text::line_ranges(&chars);
    let ghost lines = text::lines(metadata@);
    let mut i: usize = 0;
    assert(lines.skip(0) =~= lines);
    while i < ranges.len()
        invariant
            i <= ranges@.len(),
            chars@ == metadata@,
            lines == text::at_ranges(chars@, ranges@),
            forall|j: int|
                0 <= j < ranges@.len() ==> (#[trigger] ranges@[j]).0 <= ranges@[j].1
                    <= chars@.len(),
            value_in(metadata@, key@) == value_in_lines(lines.skip(i as int), key@),
        decreases ranges@.len() - i,
    {
        let range = ranges[i];
        let line = metadata.substring_char(range.0, range.1);
        assert(line@ == lines[i as int]);
        assert(lines.skip(i as int).skip(1) =~= lines.skip(i + 1));
        if let Some((line_key, value)) = text::cut(line, '=') {
            if text::same(line_key, key) {
                return Some(value);
            }
        }
        i += 1;
    }
    None
}

/// The content of the metadata file of a session that is claimed.
pub open spec fn claim_metadata_text(
    id: ClaimeeIdView,
    git_user_name: Seq<char>,
    git_user_email: Seq<char>,
    claimed_at: u64,
) -> Seq<char> {
    "claimee_id="@ + claimee_text(id) + "\ngit_user_name="@ + git_user_name + "\ngit_user_email="@
        + git_user_email + "\nclaimed_at_utc_unix_seconds="@ + text::decimal(claimed_at as nat)
        + "\n"@
}

/// The metadata that claims a session for `id` now.
pub open spec fn metadata_for_run(id: ClaimeeIdView, log: Seq<Reply>) -> Run<Seq<char>> {
    command::git_output_run(exchange::argv("config"@).push("user.name"@), None, log).and_then(
        |name: Seq<char>, log: Seq<Reply>|
            command::git_output_run(
                exchange::argv("config"@).push("user.email"@),
                None,
                log,
            ).and_then(
                |email: Seq<char>, log: Seq<Reply>|
                    time::utc_unix_timestamp_run(log).and_then(
                        |claimed_at: u64, log: Seq<Reply>|
                            Run::Done(claim_metadata_text(id, name, email, claimed_at), log),
                    ),
            ),
    )
}

pub open spec fn claim_metadata_run(log: Seq<Reply>) -> Run<Seq<char>> {
    current_run(log).and_then(
        |id: ClaimeeIdView, log: Seq<Reply>| metadata_for_run(id, log),
    )
}

/// The metadata that claims a session for the user of this machine.
pub fn claim_metadata(log: &mut Log) -> (result: Result<String, Stop>)
    ensures
        Run::of(result, final(log)@) == claim_metadata_run(old(log)@),
{
    let claimee_id = ClaimeeId::current(log)?;
    let name = command::git_output(log, Args::new("config").arg("user.name"), None)?;
    let email = command::git_output(log, Args::new("config").arg("user.email"), None)?;
    let claimed_at: u64 = time::utc_unix_timestamp(log)?;
    Ok(
        "claimee_id=".to_owned().concat(claimee_id.to_string().as_str()).concat(
            "\ngit_user_name=",
        ).concat(name.as_str()).concat("\ngit_user_email=").concat(email.as_str()).concat(
            "\nclaimed_at_utc_unix_seconds=",
        ).concat(text::decimal_text(claimed_at as u128).as_str()).concat("\n"),
    )
}

/// The metadata of a session that nobody claims.
pub fn unclaimed_metadata() -> (result: &'static str)
    ensures
        result@ == "initialized=true\n"@,
{
    "initialized=true\n"
}

/// The claim that `metadata` states: by `claimee_id`, or by `machine_id` and `local_user`.
pub open spec fn claim_in(metadata: Seq<char>) -> Result<Option<ClaimInfoView>, Seq<char>> {
    let claimed_at_utc_unix_seconds = match value_in(metadata, "claimed_at_utc_unix_seconds"@) {
        Some(value) => text::parsed_i64(value),
        None => None,
    };
    match value_in(metadata, "claimee_id"@) {
        Some(value) => match parsed_claimee(value) {
            Some(claimee_id) => Ok(
                Some(ClaimInfoView { claimee_id, claimed_at_utc_unix_seconds }),
            ),
            None => Err(invalid_claimee_text(value)),
        },
        None => match (value_in(metadata, "machine_id"@), value_in(metadata, "local_user"@)) {
            (Some(machine), Some(user)) => Ok(
                Some(
                    ClaimInfoView {
                        claimee_id: ClaimeeIdView { user, machine },
                        claimed_at_utc_unix_seconds,
                    },
                ),
            ),
            _ => Ok(None),
        },
    }
}

/// Reads the claim that metadata states.
pub fn claim_info_in_metadata(metadata: &str) -> (result: Result<Option<ClaimInfo>, String>)
    ensures
        match result {
            Ok(claim) => claim_in(metadata@) == Ok::<Option<ClaimInfoView>, Seq<char>>(
                claim.deep_view(),
            ),
            Err(message) => claim_in(metadata@) == Err::<Option<ClaimInfoView>, Seq<char>>(
                message@,
            ),
        },
{
    let claimed_at_utc_unix_seconds = match metadata_value(
        metadata,
        "claimed_at_utc_unix_seconds",
    ) {
        Some(value) => text::parse_i64(value),
        None => None,
    };
    if let Some(value) = metadata_value(metadata, "claimee_id") {
        let claimee_id = ClaimeeId::parse(value)?;
        return Ok(Some(ClaimInfo { claimee_id, claimed_at_utc_unix_seconds }));
    }
    match (metadata_value(metadata, "machine_id"), metadata_value(metadata, "local_user")) {
        (Some(machine), Some(user)) => Ok(
            Some(
                ClaimInfo {
                    claimee_id: ClaimeeId { user: user.to_owned(), machine: machine.to_owned() },
                    claimed_at_utc_unix_seconds,
                },
            ),
        ),
        _ => Ok(None),
    }
}

/// The remote branch of a session, as this repository tracks it.
pub open spec fn remote_ref_of(jist_branch: Seq<char>) -> Seq<char> {
    "refs/remotes/"@ + JIST_REMOTE@ + "/"@ + jist_branch
}

pub fn remote_ref(jist_branch: &str) -> (result: String)
    ensures
        result@ == remote_ref_of(jist_branch@),
{
    "refs/remotes/".to_owned().concat(JIST_REMOTE).concat("/").concat(jist_branch)
}

pub open spec fn remote_claim_info_run(jist_branch: Seq<char>, log: Seq<Reply>) -> Run<
    Option<ClaimInfoView>,
> {
    command::git_output_run(
        exchange::argv("show"@).push(remote_ref_of(jist_branch) + ":.jist-meta"@),
        None,
        log,
    ).and_then(
        |metadata: Seq<char>, log: Seq<Reply>| Run::end(claim_in(metadata), log),
    )
}

/// The claim of a session, as its remote branch states it.
pub fn remote_claim_info(log: &mut Log, jist_branch: &str) -> (result: Result<
    Option<ClaimInfo>,
    Stop,
>)
    ensures
        Run::of(result, final(log)@) == remote_claim_info_run(jist_branch@, old(log)@),
{
    let path = remote_ref(jist_branch).concat(":.jist-meta");
    let metadata = command::git_output(log, Args::new("show").arg(path.as_str()), None)?;
    match claim_info_in_metadata(metadata.as_str()) {
        Ok(claim) => Ok(claim),
        Err(message) => Err(Stop::Fail(message)),
    }
}

pub open spec fn remote_claim_owner_run(jist_branch: Seq<char>, log: Seq<Reply>) -> Run<
    Option<ClaimeeIdView>,
> {
    remote_claim_info_run(jist_branch, log).and_then(
        |claim: Option<ClaimInfoView>, log: Seq<Reply>|
            Run::Done(
                match claim {
                    Some(claim) => Some(claim.claimee_id),
                    None => None,
                },
                log,
            ),
    )
}

/// Who claims a session, as its remote branch states it.
pub fn remote_claim_owner(log: &mut Log, jist_branch: &str) -> (result: Result<
    Option<ClaimeeId>,
    Stop,
>)
    ensures
        Run::of(result, final(log)@) == remote_claim_owner_run(jist_branch@, old(log)@),
{
    match remote_claim_info(log, jist_branch)? {
        Some(claim) => Ok(Some(claim.claimee_id)),
        None => Ok(None),
    }
}

/// What anybody but the claimee is told.
pub open spec fn refused_run(id: ClaimeeIdView, log: Seq<Reply>) -> Run<()> {
    wrong_owner_message_run(id, log).and_then(
        |message: Seq<char>, log: Seq<Reply>| Run::Failed(message, log),
    )
}

/// Whether the claim of `id` allows the user of this machine to act.
pub open spec fn allowed_run(id: ClaimeeIdView, log: Seq<Reply>) -> Run<()> {
    is_current_setup_run(id, log).and_then(
        |mine: bool, log: Seq<Reply>|
            if mine {
                Run::Done((), log)
            } else {
                refused_run(id, log)
            },
    )
}

/// Why a session that `id` claims cannot be claimed.
pub open spec fn taken_run(id: ClaimeeIdView, log: Seq<Reply>) -> Run<()> {
    is_current_setup_run(id, log).and_then(
        |mine: bool, log: Seq<Reply>|
            if mine {
                Run::Failed(
                    "This JIST session is already claimed by this machine and user."@,
                    log,
                )
            } else {
                refused_run(id, log)
            },
    )
}

pub open spec fn ensure_claimed_by_this_machine_run(
    jist_branch: Seq<char>,
    log: Seq<Reply>,
) -> Run<()> {
    remote_claim_owner_run(jist_branch, log).and_then(
        |owner: Option<ClaimeeIdView>, log: Seq<Reply>|
            match owner {
                Some(id) => allowed_run(id, log),
                None => Run::Failed("This JIST session has not been claimed yet."@, log),
            },
    )
}

/// Fails unless the user of this machine claims the session.
pub fn ensure_claimed_by_this_machine(log: &mut Log, jist_branch: &str) -> (result: Result<
    (),
    Stop,
>)
    ensures
        Run::of(result, final(log)@) == ensure_claimed_by_this_machine_run(
            jist_branch@,
            old(log)@,
        ),
{
    match remote_claim_owner(log, jist_branch)? {
        Some(claim) => if claim.is_current_setup(log)? {
            Ok(())
        } else {
            Err(Stop::Fail(claim.wrong_owner_message(log)?))
        },
        None => Err(Stop::Fail("This JIST session has not been claimed yet.".to_owned())),
    }
}

pub open spec fn ensure_unclaimed_run(jist_branch: Seq<char>, log: Seq<Reply>) -> Run<()> {
    remote_claim_owner_run(jist_branch, log).and_then(
        |owner: Option<ClaimeeIdView>, log: Seq<Reply>|
            match owner {
                Some(id) => taken_run(id, log),
                None => Run::Done((), log),
            },
    )
}

/// Fails if anybody claims the session.
pub fn ensure_unclaimed(log: &mut Log, jist_branch: &str) -> (result: Result<(), Stop>)
    ensures
        Run::of(result, final(log)@) == ensure_unclaimed_run(jist_branch@, old(log)@),
{
    match remote_claim_owner(log, jist_branch)? {
        Some(claim) => if claim.is_current_setup(log)? {
            Err(
                Stop::Fail(
                    "This JIST session is already claimed by this machine and user.".to_owned(),
                ),
            )
        } else {
            Err(Stop::Fail(claim.wrong_owner_message(log)?))
        },
        None => Ok(()),
    }
}

/// How a session stands to the user of this machine.
#[derive(Debug, PartialEq, Eq)]
pub enum ClaimState {
    Unclaimed,
    ClaimedByCurrentSetup,
    ClaimedByOther(ClaimeeId),
}

#[verifier::ext_equal]
pub enum ClaimStateView {
    Unclaimed,
    ClaimedByCurrentSetup,
    ClaimedByOther(ClaimeeIdView),
}

impl View for ClaimState {
    type V = ClaimStateView;

    open spec fn view(&self) -> ClaimStateView {
        match self {
            ClaimState::Unclaimed => ClaimStateView::Unclaimed,
            ClaimState::ClaimedByCurrentSetup => ClaimStateView::ClaimedByCurrentSetup,
            ClaimState::ClaimedByOther(id) => ClaimStateView::ClaimedByOther(id@),
        }
    }
}

impl DeepView for ClaimState {
    type V = ClaimStateView;

    open spec fn deep_view(&self) -> ClaimStateView {
        self@
    }
}

impl ClaimState {
    pub fn is_claimed(&self) -> (result: bool)
        ensures
            result == !(self@ is Unclaimed),
    {
        !matches!(self, ClaimState::Unclaimed)
    }
}

pub open spec fn claim_state_for_branch_run(jist_branch: Seq<char>, log: Seq<Reply>) -> Run<
    ClaimStateView,
> {
    remote_claim_owner_run(jist_branch, log).and_then(
        |owner: Option<ClaimeeIdView>, log: Seq<Reply>|
            match owner {
                Some(id) => is_current_setup_run(id, log).and_then(
                    |mine: bool, log: Seq<Reply>|
                        Run::Done(
                            if mine {
                                ClaimStateView::ClaimedByCurrentSetup
                            } else {
                                ClaimStateView::ClaimedByOther(id)
                            },
                            log,
                        ),
                ),
                None => Run::Done(ClaimStateView::Unclaimed, log),
            },
    )
}

pub fn claim_state_for_branch(log: &mut Log, jist_branch: &str) -> (result: Result<
    ClaimState,
    Stop,
>)
    ensures
        Run::of(result, final(log)@) == claim_state_for_branch_run(jist_branch@, old(log)@),
{
    match remote_claim_owner(log, jist_branch)? {
        Some(claim) => if claim.is_current_setup(log)? {
            Ok(ClaimState::ClaimedByCurrentSetup)
        } else {
            Ok(ClaimState::ClaimedByOther(claim))
        },
        None => Ok(ClaimState::Unclaimed),
    }
}

} // verus!
