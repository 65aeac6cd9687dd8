//! Sessions: their names, their branches, and the list of them on the remote.

use crate::claim;
use crate::claim::JIST_REMOTE;
use crate::command;
use crate::exchange;
use crate::exchange::{Args, Log, Reply, Run, Stop};
use crate::repository;
use crate::text;
use vstd::prelude::*;

verus! {

/// How many sessions a short list shows.
pub const STATUS_SESSION_LIMIT: usize = 3;

/// A session on the remote: its name, the commit of its branch, the commit it is based on,
/// and the time of its last change.
#[derive(Debug, PartialEq, Eq)]
pub struct SessionInfo {
    pub name: String,
    pub working_commit: String,
    pub base_commit: String,
    pub modified_at_unix_seconds: i64,
}

#[verifier::ext_equal]
pub struct SessionInfoView {
    pub name: Seq<char>,
    pub working_commit: Seq<char>,
    pub base_commit: Seq<char>,
    pub modified_at_unix_seconds: i64,
}

impl View for SessionInfo {
    type V = SessionInfoView;

    open spec fn view(&self) -> SessionInfoView {
        SessionInfoView {
            name: self.name@,
            working_commit: self.working_commit@,
            base_commit: self.base_commit@,
            modified_at_unix_seconds: self.modified_at_unix_seconds,
        }
    }
}

impl DeepView for SessionInfo {
    type V = SessionInfoView;

    open spec fn deep_view(&self) -> SessionInfoView {
        self@
    }
}

/// The characters that a session name may bring into a branch name.
pub open spec fn is_ref_char(c: char) -> bool {
    ||| 'a' <= c <= 'z'
    ||| 'A' <= c <= 'Z'
    ||| '0' <= c <= '9'
    ||| c == '-'
    ||| c == '_'
    ||| c == '.'
    ||| c == '/'
}

pub fn ref_char(c: char) -> (result: char)
    ensures
        result == as_ref_char(c),
{
    if ('a' <= c && c <= 'z') || ('A' <= c && c <= 'Z') || ('0' <= c && c <= '9') || c == '-' || c
        == '_' || c == '.' || c == '/' {
        c
    } else {
        '-'
    }
}

/// A character that may stand in a branch name, in place of any other a hyphen.
pub open spec fn as_ref_char(c: char) -> char {
    if is_ref_char(c) {
        c
    } else {
        '-'
    }
}

/// The characters that neither begin nor end an escaped name.
pub open spec fn is_ref_edge(c: char) -> bool {
    c == '.' || c == '-' || c == '/'
}

fn ref_edge(c: char) -> (result: bool)
    ensures
        result == is_ref_edge(c),
{
    c == '.' || c == '-' || c == '/'
}

/// `value` with its characters fit for a branch name and its ends bare.
pub open spec fn escaped(value: Seq<char>) -> Seq<char> {
    text::strip(
        text::trimmed(value).map_values(|c: char| as_ref_char(c)),
        |c: char| is_ref_edge(c),
    )
}

pub fn escape_ref_part(value: &str) -> (result: String)
    ensures
        result@ == escaped(value@),
{
    let trimmed = text::chars_of(text::trim(value));
    let ghost model = text::trimmed(value@).map_values(|c: char| as_ref_char(c));
    let mut chars: Vec<char> = Vec::new();
    let mut i: usize = 0;
    while i < trimmed.len()
        invariant
            i <= trimmed@.len(),
            trimmed@ == text::trimmed(value@),
            model == trimmed@.map_values(|c: char| as_ref_char(c)),
            chars@ == model.take(i as int),
        decreases trimmed@.len() - i,
    {
        chars.push(ref_char(trimmed[i]));
        i += 1;
        assert(chars@ =~= model.take(i as int));
    }
    assert(chars@ =~= model);
    let range = text::stripped_range(&chars, ref_edge, Ghost(|c: char| is_ref_edge(c)));
    text::text_of(&chars, range.0, range.1)
}

/// The branch of a session.
pub open spec fn branch_of(session_name: Seq<char>) -> Seq<char> {
    "jist-"@ + escaped(session_name)
}

pub fn jist_branch_name(session_name: &str) -> (result: String)
    ensures
        result@ == branch_of(session_name@),
{
    "jist-".to_owned().concat(escape_ref_part(session_name).as_str())
}

/// The session whose branch this is, if it is the branch of one.
pub open spec fn session_of_branch(branch_name: Seq<char>) -> Option<Seq<char>> {
    match text::without_prefix(branch_name, "jist-"@) {
        Some(name) if name.len() > 0 => Some(name),
        _ => None,
    }
}

pub fn session_name_from_jist_branch<'a>(branch_name: &'a str) -> (result: Option<&'a str>)
    ensures
        result.deep_view() == session_of_branch(branch_name@),
{
    match text::strip_prefix(branch_name, "jist-") {
        Some(name) if !name.is_empty() => Some(name),
        _ => None,
    }
}

/// How the short name of a session's remote branch begins.
pub open spec fn ref_prefix() -> Seq<char> {
    JIST_REMOTE@ + "/jist-"@
}

/// The session that a line of three fields describes: the remote branch, the time of the last
/// change and the commit. The commit that it is based on stays open.
pub open spec fn session_in_line(line: Seq<char>) -> Option<SessionInfoView> {
    let fields = text::split(line, '\t');
    if fields.len() < 3 {
        None
    } else {
        match (text::without_prefix(fields[0], ref_prefix()), text::parsed_i64(fields[1])) {
            (Some(name), Some(modified_at_unix_seconds)) => Some(
                SessionInfoView {
                    name,
                    working_commit: fields[2],
                    base_commit: Seq::empty(),
                    modified_at_unix_seconds,
                },
            ),
            _ => None,
        }
    }
}

pub fn session_from_ref_line(line: &str) -> (result: Option<SessionInfo>)
    ensures
        result.deep_view() == session_in_line(line@),
{
    proof {
        reveal_with_fuel(text::split, 4);
    }
    let (ref_name, rest) = text::cut(line, '\t')?;
    let (modified_at, rest) = text::cut(rest, '\t')?;
    let working_commit = match text::cut(rest, '\t') {
        Some((commit, _)) => commit,
        None => rest,
    };
    let prefix = JIST_REMOTE.to_owned().concat("/jist-");
    let name = text::strip_prefix(ref_name, prefix.as_str())?;
    let modified_at_unix_seconds: i64 = text::parse_i64(modified_at)?;
    Some(
        SessionInfo {
            name: name.to_owned(),
            working_commit: working_commit.to_owned(),
            base_commit: String::new(),
            modified_at_unix_seconds,
        },
    )
}

/// The commit in front of the first line of what `git ls-remote` printed, if it printed
/// anything.
pub open spec fn listed_commit(branch_name: Seq<char>, output: Seq<char>) -> Result<
    Option<Seq<char>>,
    Seq<char>,
> {
    if output.len() == 0 {
        Ok(None)
    } else {
        match text::split_once(text::lines(output)[0], '\t') {
            Some((commit, _)) => Ok(Some(commit)),
            None => Err("Could not parse remote branch `"@ + branch_name + "`."@),
        }
    }
}

pub fn parse_ls_remote_commit(branch_name: &str, output: &str) -> (result: Result<
    Option<String>,
    String,
>)
    ensures
        match result {
            Ok(commit) => listed_commit(branch_name@, output@) == Ok::<
                Option<Seq<char>>,
                Seq<char>,
            >(commit.deep_view()),
            Err(message) => listed_commit(branch_name@, output@) == Err::<
                Option<Seq<char>>,
                Seq<char>,
            >(message@),
        },
{
    if output.is_empty() {
        return Ok(None);
    }
    let chars = text::chars_of(output);
    let ranges = text::line_ranges(&chars);
    assert(text::lines(output@).len() > 0);
    assert(text::lines(output@) == text::at_ranges(chars@, ranges@));
    let range = ranges[0];
    let line = output.substring_char(range.0, range.1);
    match text::cut(line, '\t') {
        Some((commit, _)) => Ok(Some(commit.to_owned())),
        None => Err("Could not parse remote branch `".to_owned().concat(branch_name).concat("`.")),
    }
}

pub open spec fn fetch_jist_sessions_run(log: Seq<Reply>) -> Run<()> {
    command::git_status_run(
        exchange::argv("fetch"@).push("--prune"@).push(JIST_REMOTE@).push(
            "+refs/heads/jist-*:refs/remotes/"@ + JIST_REMOTE@ + "/jist-*"@,
        ),
        log,
    )
}

/// Fetches all sessions and forgets those that are gone.
pub fn fetch_jist_sessions(log: &mut Log) -> (result: Result<(), Stop>)
    ensures
        Run::of(result, final(log)@) == fetch_jist_sessions_run(old(log)@),
{
    let refspec = "+refs/heads/jist-*:refs/remotes/".to_owned().concat(JIST_REMOTE).concat(
        "/jist-*",
    );
    command::git_status(
        log,
        Args::new("fetch").arg("--prune").arg(JIST_REMOTE).arg(refspec.as_str()),
    )
}

pub open spec fn fetch_jist_branch_run(jist_branch: Seq<char>, log: Seq<Reply>) -> Run<()> {
    command::git_status_run(
        exchange::argv("fetch"@).push(JIST_REMOTE@).push(
            "+refs/heads/"@ + jist_branch + ":refs/remotes/"@ + JIST_REMOTE@ + "/"@ + jist_branch,
        ),
        log,
    )
}

/// Fetches one session.
pub fn fetch_jist_branch(log: &mut Log, jist_branch: &str) -> (result: Result<(), Stop>)
    ensures
        Run::of(result, final(log)@) == fetch_jist_branch_run(jist_branch@, old(log)@),
{
    let refspec = "+refs/heads/".to_owned().concat(jist_branch).concat(":refs/remotes/").concat(
        JIST_REMOTE,
    ).concat("/").concat(jist_branch);
    command::git_status(log, Args::new("fetch").arg(JIST_REMOTE).arg(refspec.as_str()))
}

pub open spec fn local_branch_exists_run(branch_name: Seq<char>, log: Seq<Reply>) -> Run<bool> {
    command::git_success_run(
        exchange::argv("show-ref"@).push("--verify"@).push("--quiet"@).push(
            "refs/heads/"@ + branch_name,
        ),
        log,
    )
}

pub fn local_branch_exists(log: &mut Log, branch_name: &str) -> (result: Result<bool, Stop>)
    ensures
        Run::of(result, final(log)@) == local_branch_exists_run(branch_name@, old(log)@),
{
    let reference = "refs/heads/".to_owned().concat(branch_name);
    command::git_success(
        log,
        Args::new("show-ref").arg("--verify").arg("--quiet").arg(reference.as_str()),
    )
}

pub open spec fn remote_branch_commit_run(branch_name: Seq<char>, log: Seq<Reply>) -> Run<
    Option<Seq<char>>,
> {
    command::git_output_run(
        exchange::argv("ls-remote"@).push("--heads"@).push(JIST_REMOTE@).push(branch_name),
        None,
        log,
    ).and_then(
        |output: Seq<char>, log: Seq<Reply>| Run::end(listed_commit(branch_name, output), log),
    )
}

/// The commit of a branch on the remote, if the branch is there.
pub fn remote_branch_commit(log: &mut Log, branch_name: &str) -> (result: Result<
    Option<String>,
    Stop,
>)
    ensures
        Run::of(result, final(log)@) == remote_branch_commit_run(branch_name@, old(log)@),
{
    let output = command::git_output(
        log,
        Args::new("ls-remote").arg("--heads").arg(JIST_REMOTE).arg(branch_name),
        None,
    )?;
    match parse_ls_remote_commit(branch_name, output.as_str()) {
        Ok(commit) => Ok(commit),
        Err(message) => Err(Stop::Fail(message)),
    }
}

/// The sessions that the lines of a text describe, in their order.
pub open spec fn sessions_in(refs: Seq<char>) -> Seq<SessionInfoView> {
    text::lines(refs).filter_map(|line: Seq<char>| session_in_line(line))
}

/// Reads the sessions off the lines of a text.
pub fn sessions_from_refs(refs: &str) -> (sessions: Vec<SessionInfo>)
    ensures
        sessions.deep_view() == sessions_in(refs@),
{
    let chars = text::chars_of(refs);
    let ranges = text::line_ranges(&chars);
    let ghost lines = text::lines(refs@);
    let ghost parse = |line: Seq<char>| session_in_line(line);
    let mut sessions: Vec<SessionInfo> = Vec::new();
    let mut i: usize = 0;
    assert(sessions.deep_view() =~= lines.take(0).filter_map(parse));
    while i < ranges.len()
        invariant
            i <= ranges@.len(),
            chars@ == refs@,
            lines == text::at_ranges(chars@, ranges@),
            forall|j: int|
                0 <= j < ranges@.len() ==> (#[trigger] ranges@[j]).0 <= ranges@[j].1
                    <= chars@.len(),
            parse == (|line: Seq<char>| session_in_line(line)),
            sessions.deep_view() == lines.take(i as int).filter_map(parse),
        decreases ranges@.len() - i,
    {
        let range = ranges[i];
        let line = text::text_of(&chars, range.0, range.1);
        assert(line@ == lines[i as int]);
        assert(lines.take(i + 1).drop_last() =~= lines.take(i as int));
        let ghost before = sessions.deep_view();
        if let Some(session) = session_from_ref_line(line.as_str()) {
            sessions.push(session);
            assert(sessions.deep_view() =~= before + seq![session@]);
        }
        i += 1;
    }
    assert(lines.take(i as int) =~= lines);
    sessions
}

pub open spec fn base_commit_run(jist_branch: Seq<char>, log: Seq<Reply>) -> Run<Seq<char>> {
    command::git_output_run(
        exchange::argv("rev-parse"@).push(claim::remote_ref_of(jist_branch) + "^"@),
        None,
        log,
    )
}

/// The commit that a session is based on.
pub fn base_commit(log: &mut Log, jist_branch: &str) -> (result: Result<String, Stop>)
    ensures
        Run::of(result, final(log)@) == base_commit_run(jist_branch@, old(log)@),
{
    let parent = claim::remote_ref(jist_branch).concat("^");
    command::git_output(log, Args::new("rev-parse").arg(parent.as_str()), None)
}

/// The sessions `found`, and after them the sessions `rest` with the commits that they are
/// based on.
pub open spec fn with_base_commits_run(
    found: Seq<SessionInfoView>,
    rest: Seq<SessionInfoView>,
    log: Seq<Reply>,
) -> Run<Seq<SessionInfoView>>
    decreases rest.len(),
{
    if rest.len() == 0 {
        Run::Done(found, log)
    } else {
        base_commit_run(branch_of(rest[0].name), log).and_then(
            |base_commit: Seq<char>, log: Seq<Reply>|
                with_base_commits_run(
                    found.push(SessionInfoView { base_commit, ..rest[0] }),
                    rest.skip(1),
                    log,
                ),
        )
    }
}

/// Looks up the commits that sessions are based on.
fn with_base_commits(log: &mut Log, sessions: &Vec<SessionInfo>) -> (result: Result<
    Vec<SessionInfo>,
    Stop,
>)
    ensures
        Run::of(result, final(log)@) == with_base_commits_run(
            Seq::empty(),
            sessions.deep_view(),
            old(log)@,
        ),
{
    let ghost all = sessions.deep_view();
    let mut found: Vec<SessionInfo> = Vec::new();
    let mut i: usize = 0;
    assert(found.deep_view() =~= Seq::empty());
    assert(all.skip(0) =~= all);
    while i < sessions.len()
        invariant
            i <= sessions@.len(),
            all == sessions.deep_view(),
            with_base_commits_run(found.deep_view(), all.skip(i as int), log@)
                == with_base_commits_run(Seq::empty(), all, old(log)@),
        decreases sessions@.len() - i,
    {
        let session = &sessions[i];
        assert(all.skip(i as int)[0] == session@);
        assert(all.skip(i as int).skip(1) =~= all.skip(i + 1));
        let ghost before = found.deep_view();
        let base_commit = base_commit(log, jist_branch_name(session.name.as_str()).as_str())?;
        found.push(
            SessionInfo {
                name: session.name.clone(),
                working_commit: session.working_commit.clone(),
                base_commit,
                modified_at_unix_seconds: session.modified_at_unix_seconds,
            },
        );
        assert(found.deep_view() =~= before.push(
            SessionInfoView { base_commit: base_commit@, ..session@ },
        ));
        i += 1;
    }
    Ok(found)
}

pub open spec fn list_refs_run(log: Seq<Reply>) -> Run<Seq<char>> {
    command::git_output_run(
        exchange::argv("for-each-ref"@).push("--sort=-committerdate"@).push(
            "--format=%(refname:short)%09%(committerdate:unix)%09%(objectname)"@,
        ).push("refs/remotes/"@ + JIST_REMOTE@ + "/jist-*"@),
        None,
        log,
    )
}

/// What git lists of the sessions, after they were fetched.
pub open spec fn fetch_and_list_run(log: Seq<Reply>) -> Run<Seq<char>> {
    fetch_jist_sessions_run(log).and_then(|_done: (), log: Seq<Reply>| list_refs_run(log))
}

/// The sessions on a remote that was opened.
pub open spec fn listed_sessions_run(log: Seq<Reply>) -> Run<Seq<SessionInfoView>> {
    fetch_and_list_run(log).and_then(
        |refs: Seq<char>, log: Seq<Reply>|
            with_base_commits_run(Seq::empty(), sessions_in(refs), log),
    )
}

pub open spec fn list_sessions_run(log: Seq<Reply>) -> Run<Seq<SessionInfoView>> {
    repository::open_remote_run(log).and_then(
        |_done: (), log: Seq<Reply>| listed_sessions_run(log),
    )
}

/// The sessions on the remote, the one that changed last in front.
pub fn list_sessions(log: &mut Log) -> (result: Result<Vec<SessionInfo>, Stop>)
    ensures
        Run::of(result, final(log)@) == list_sessions_run(old(log)@),
{
    repository::open_remote(log)?;
    fetch_jist_sessions(log)?;
    let pattern = "refs/remotes/".to_owned().concat(JIST_REMOTE).concat("/jist-*");
    let refs = command::git_output(
        log,
        Args::new("for-each-ref").arg("--sort=-committerdate").arg(
            "--format=%(refname:short)%09%(committerdate:unix)%09%(objectname)",
        ).arg(pattern.as_str()),
        None,
    )?;
    with_base_commits(log, &sessions_from_refs(refs.as_str()))
}

pub open spec fn head_run(log: Seq<Reply>) -> Run<Seq<char>> {
    command::git_output_run(exchange::argv("rev-parse"@).push("HEAD"@), None, log)
}

/// The commit that is checked out.
pub fn head(log: &mut Log) -> (result: Result<String, Stop>)
    ensures
        Run::of(result, final(log)@) == head_run(old(log)@),
{
    command::git_output(log, Args::new("rev-parse").arg("HEAD"), None)
}

pub open spec fn current_branch_run(log: Seq<Reply>) -> Run<Seq<char>> {
    command::git_output_run(exchange::argv("branch"@).push("--show-current"@), None, log)
}

/// The branch that is checked out; empty if there is none.
pub fn current_branch(log: &mut Log) -> (result: Result<String, Stop>)
    ensures
        Run::of(result, final(log)@) == current_branch_run(old(log)@),
{
    command::git_output(log, Args::new("branch").arg("--show-current"), None)
}

pub open spec fn selected_session_run(log: Seq<Reply>) -> Run<Option<Seq<char>>> {
    current_branch_run(log).and_then(
        |branch: Seq<char>, log: Seq<Reply>| Run::Done(session_of_branch(branch), log),
    )
}

/// The session whose branch is checked out.
pub fn selected_session(log: &mut Log) -> (result: Result<Option<String>, Stop>)
    ensures
        Run::of(result, final(log)@) == selected_session_run(old(log)@),
{
    let branch = current_branch(log)?;
    match session_name_from_jist_branch(branch.as_str()) {
        Some(name) => Ok(Some(name.to_owned())),
        None => Ok(None),
    }
}

/// The first of `sessions` that `test` holds of.
pub open spec fn first_session(
    sessions: Seq<SessionInfoView>,
    test: spec_fn(SessionInfoView) -> bool,
) -> Option<SessionInfoView>
    decreases sessions.len(),
{
    if sessions.len() == 0 {
        None
    } else if test(sessions[0]) {
        Some(sessions[0])
    } else {
        first_session(sessions.skip(1), test)
    }
}

/// The first of `sessions` whose branch is at `commit`.
pub open spec fn session_at(sessions: Seq<SessionInfoView>, commit: Seq<char>) -> Option<
    SessionInfoView,
> {
    first_session(sessions, |session: SessionInfoView| session.working_commit == commit)
}

pub fn find_session_at<'a>(sessions: &'a [SessionInfo], commit: &str) -> (result: Option<
    &'a SessionInfo,
>)
    ensures
        result.deep_view() == session_at(sessions.deep_view(), commit@),
{
    let ghost all = sessions.deep_view();
    let ghost test = |session: SessionInfoView| session.working_commit == commit@;
    let mut i: usize = 0;
    assert(all.skip(0) =~= all);
    while i < sessions.len()
        invariant
            i <= sessions@.len(),
            all == sessions.deep_view(),
            test == (|session: SessionInfoView| session.working_commit == commit@),
            first_session(all.skip(i as int), test) == first_session(all, test),
        decreases sessions@.len() - i,
    {
        assert(all.skip(i as int)[0] == sessions@[i as int]@);
        assert(all.skip(i as int).skip(1) =~= all.skip(i + 1));
        if text::same(sessions[i].working_commit.as_str(), commit) {
            return Some(&sessions[i]);
        }
        i += 1;
    }
    None
}

pub open spec fn selected_session_name_run(
    sessions: Seq<SessionInfoView>,
    current_head: Seq<char>,
    log: Seq<Reply>,
) -> Run<Option<Seq<char>>> {
    match session_at(sessions, current_head) {
        Some(session) => Run::Done(Some(session.name), log),
        None => selected_session_run(log),
    }
}

/// The session at the commit that is checked out, else the one whose branch is.
pub fn selected_session_name(log: &mut Log, sessions: &[SessionInfo], current_head: &str) -> (result:
    Result<Option<String>, Stop>)
    ensures
        Run::of(result, final(log)@) == selected_session_name_run(
            sessions.deep_view(),
            current_head@,
            old(log)@,
        ),
{
    if let Some(session) = find_session_at(sessions, current_head) {
        return Ok(Some(session.name.clone()));
    }
    selected_session(log)
}

/// The one of `sessions` that is checked out.
pub open spec fn checked_out_among_run(sessions: Seq<SessionInfoView>, log: Seq<Reply>) -> Run<
    Option<Seq<char>>,
> {
    head_run(log).and_then(
        |head: Seq<char>, log: Seq<Reply>| selected_session_name_run(sessions, head, log),
    )
}

pub open spec fn current_session_name_run(log: Seq<Reply>) -> Run<Option<Seq<char>>> {
    list_sessions_run(log).and_then(
        |sessions: Seq<SessionInfoView>, log: Seq<Reply>| checked_out_among_run(sessions, log),
    )
}

/// The session that is checked out.
pub fn current_session_name(log: &mut Log) -> (result: Result<Option<String>, Stop>)
    ensures
        Run::of(result, final(log)@) == current_session_name_run(old(log)@),
{
    let sessions = list_sessions(log)?;
    let current_head = head(log)?;
    selected_session_name(log, sessions.as_slice(), current_head.as_str())
}

/// The first session of the given name, as a list of one; empty if there is none.
pub open spec fn pinned(sessions: Seq<SessionInfoView>, name: Option<Seq<char>>) -> Seq<
    SessionInfoView,
> {
    match name {
        Some(name) => match first_session(
            sessions,
            |session: SessionInfoView| session.name == name,
        ) {
            Some(session) => seq![session],
            None => seq![],
        },
        None => seq![],
    }
}

/// The sessions that have another name.
pub open spec fn others(sessions: Seq<SessionInfoView>, name: Option<Seq<char>>) -> Seq<
    SessionInfoView,
> {
    sessions.filter(|session: SessionInfoView| Some(session.name) != name)
}

/// The sessions that a short list shows: the current one in front, then others up to the
/// limit.
pub open spec fn visible(sessions: Seq<SessionInfoView>, current_session: Option<Seq<char>>) -> Seq<
    SessionInfoView,
> {
    let front = pinned(sessions, current_session);
    let back = others(sessions, current_session);
    let room = STATUS_SESSION_LIMIT - front.len();
    front + if back.len() <= room {
        back
    } else {
        back.take(room)
    }
}

/// Finds the first session of the given name.
fn find_session_named<'a>(sessions: &'a [SessionInfo], name: &str) -> (result: Option<
    &'a SessionInfo,
>)
    ensures
        result.deep_view() == first_session(
            sessions.deep_view(),
            |session: SessionInfoView| session.name == name@,
        ),
{
    let ghost all = sessions.deep_view();
    let ghost test = |session: SessionInfoView| session.name == name@;
    let mut i: usize = 0;
    assert(all.skip(0) =~= all);
    while i < sessions.len()
        invariant
            i <= sessions@.len(),
            all == sessions.deep_view(),
            test == (|session: SessionInfoView| session.name == name@),
            first_session(all.skip(i as int), test) == first_session(all, test),
        decreases sessions@.len() - i,
    {
        assert(all.skip(i as int)[0] == sessions@[i as int]@);
        assert(all.skip(i as int).skip(1) =~= all.skip(i + 1));
        if text::same(sessions[i].name.as_str(), name) {
            return Some(&sessions[i]);
        }
        i += 1;
    }
    None
}

pub fn visible_sessions<'a>(sessions: &'a [SessionInfo], current_session: Option<&str>) -> (result:
    Vec<&'a SessionInfo>)
    ensures
        result.deep_view() == visible(sessions.deep_view(), current_session.deep_view()),
{
    let ghost all = sessions.deep_view();
    let ghost name = current_session.deep_view();
    let ghost front = pinned(all, name);
    let ghost differs = |session: SessionInfoView| Some(session.name) != name;
    let mut result: Vec<&SessionInfo> = Vec::new();
    if let Some(current) = current_session {
        if let Some(session) = find_session_named(sessions, current) {
            result.push(session);
        }
    }
    assert(result.deep_view() =~= front);
    let mut i: usize = 0;
    proof {
        reveal(Seq::filter);
        assert(all.take(0).filter(differs) =~= seq![]);
        assert(front + all.take(0).filter(differs) =~= front);
    }
    while i < sessions.len() && result.len() < STATUS_SESSION_LIMIT
        invariant
            i <= sessions@.len(),
            all == sessions.deep_view(),
            name == current_session.deep_view(),
            differs == (|session: SessionInfoView| Some(session.name) != name),
            front.len() <= 1,
            result@.len() <= STATUS_SESSION_LIMIT,
            result.deep_view() == front + all.take(i as int).filter(differs),
        decreases sessions@.len() - i,
    {
        let session = &sessions[i];
        let is_current = match current_session {
            Some(current) => text::same(session.name.as_str(), current),
            None => false,
        };
        let ghost before = result.deep_view();
        if !is_current {
            result.push(session);
            assert(result.deep_view() =~= before.push(session@));
        }
        proof {
            reveal(Seq::filter);
            assert(all.take(i + 1).drop_last() =~= all.take(i as int));
            assert(all.take(i + 1).last() == session@);
            assert(before.push(session@) =~= front + all.take(i as int).filter(differs).push(
                session@,
            ));
        }
        i += 1;
    }
    proof {
        let seen = all.take(i as int).filter(differs);
        let unseen = all.skip(i as int).filter(differs);
        assert(all.take(i as int) + all.skip(i as int) =~= all);
        Seq::filter_distributes_over_add(all.take(i as int), all.skip(i as int), differs);
        assert(others(all, name) == seen + unseen);
        assert(result@.len() == front.len() + seen.len());
        if i == sessions@.len() {
            reveal(Seq::filter);
            assert(unseen =~= seq![]);
            assert(seen + unseen =~= seen);
        } else {
            assert((seen + unseen).take(seen.len() as int) =~= seen);
            if unseen.len() == 0 {
                assert(seen + unseen =~= seen);
            }
        }
    }
    result
}

} // verus!
