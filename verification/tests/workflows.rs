use jist::claim::{
    claim_state_for_branch, ensure_claimed_by_this_machine, ensure_unclaimed, remote_claim_info,
    ClaimState, ClaimeeId,
};
use jist::cli;
use jist::cli::Report;
use jist::command::{
    command_output, command_stdout, ensure_gh_installed, gh_output, gh_status, gh_success,
    git_output, git_output_with_index, git_status, git_status_with_index, git_success,
};
use jist::exchange::{
    Args, ClockReading, CommandReply, Finished, Log, Program, Reply, Request, Stop,
};
use jist::repository::{ensure_jist_remote, ensure_private_repository};
use jist::session::{current_session_name, list_sessions};
use jist::status::{format_session_working_commit_status, render_status, session_links};
use jist::sync::sync_status_for_branch;
use jist::workflow::{
    checkout_session, claim_session, create_jist_meta_commit, delete_session, push_session,
    start_jist_session, unclaim_session,
};

// A repository, its remote and its user, as far as the workflows can see them.
struct World {
    // Answers to commands, by how the command line begins; the last one that fits counts.
    rules: Vec<(String, CommandReply)>,
    variables: Vec<(String, String)>,
    // The metadata file here and on the remote branch.
    metadata: String,
    remote_metadata: String,
    typed: String,
    seconds: u64,
    asked: Vec<String>,
}

fn ended(success: bool, stdout: &str, stderr: &str) -> CommandReply {
    CommandReply::Finished(Finished {
        success,
        status: if success { "exit status: 0" } else { "exit status: 1" }.to_owned(),
        stdout: stdout.as_bytes().to_vec(),
        stderr: stderr.as_bytes().to_vec(),
    })
}

fn copied(reply: &CommandReply) -> CommandReply {
    match reply {
        CommandReply::NotStarted(error) => CommandReply::NotStarted(error.clone()),
        CommandReply::Finished(finished) => CommandReply::Finished(Finished {
            success: finished.success,
            status: finished.status.clone(),
            stdout: finished.stdout.clone(),
            stderr: finished.stderr.clone(),
        }),
    }
}

impl World {
    fn new() -> World {
        let mut world = World {
            rules: Vec::new(),
            variables: Vec::new(),
            metadata: "initialized=true\n".to_owned(),
            remote_metadata: "initialized=true\n".to_owned(),
            typed: "confirm\n".to_owned(),
            seconds: 1_000,
            asked: Vec::new(),
        };
        world.user("jos", "desktop");
        world.says("gh repo view --json name ", "source\n");
        world.says("gh repo view --json nameWithOwner", "owner/source\n");
        world.says("gh api user", "jos\n");
        world.says(
            "git remote get-url jist",
            "https://github.com/jos/jist-source.git\n",
        );
        world.says("git branch --show-current", "jist-one\n");
        world.says("git rev-parse HEAD", "w1\n");
        world.says("git rev-parse --short", "short\n");
        world.says("git rev-parse refs/remotes/jist/jist-one^", "b1\n");
        world.says("git rev-parse refs/remotes/jist/jist-two^", "b2\n");
        world.says("git config user.name", "Jos\n");
        world.says("git config user.email", "jos@x\n");
        world.says("git ls-remote", "w1\trefs/heads/jist-one\n");
        world.says("git ls-tree", "a\nb\n");
        world.says(
            "git for-each-ref",
            "jist/jist-one\t940\tw1\njist/jist-two\t400\tw2\n",
        );
        world
    }

    fn user(&mut self, user: &str, machine: &str) {
        self.variables = vec![
            ("USER".to_owned(), user.to_owned()),
            ("HOSTNAME".to_owned(), machine.to_owned()),
        ];
    }

    fn says(&mut self, line: &str, stdout: &str) {
        self.rules.push((line.to_owned(), ended(true, stdout, "")));
    }

    fn fails(&mut self, line: &str, stderr: &str) {
        self.rules.push((line.to_owned(), ended(false, "", stderr)));
    }

    fn run(&mut self, line: &str) -> CommandReply {
        if line.starts_with("git show ") && line.ends_with(":.jist-meta") {
            return ended(true, &self.remote_metadata, "");
        }
        let reply = match self.rules.iter().rev().find(|rule| line.starts_with(&rule.0)) {
            Some(rule) => copied(&rule.1),
            None => ended(true, "", ""),
        };
        if let CommandReply::Finished(finished) = &reply {
            if finished.success && line.starts_with("git push --force") {
                self.remote_metadata = self.metadata.clone();
            }
        }
        reply
    }

    fn answer(&mut self, request: Request) -> Reply {
        match request {
            Request::Command(command) => {
                let program = match command.program {
                    Program::Git => "git",
                    Program::Gh => "gh",
                    Program::Hostname => "hostname",
                };
                let mut line = program.to_owned();
                for word in command.args.words() {
                    line.push(' ');
                    line.push_str(word);
                }
                if let Some(index) = &command.index_file {
                    line = format!("{line} [{index}]");
                }
                if let Some(input) = &command.stdin {
                    line = format!("{line} <{input}>");
                }
                self.asked.push(line.clone());
                Reply::Command(self.run(&line))
            }
            Request::Variable(name) => {
                let value = self.variables.iter().find(|pair| pair.0 == name);
                Reply::Variable(value.map(|pair| pair.1.clone()))
            }
            Request::Clock => Reply::Clock(ClockReading::Seconds(self.seconds)),
            Request::LocalOffset(_) => Reply::Offset(0),
            Request::Prompt(text) => {
                self.asked.push(format!("prompt {text}"));
                Reply::Outcome(Ok(()))
            }
            Request::ReadLine => Reply::Line(Ok(self.typed.clone())),
            Request::WriteFile(path, content) => {
                self.asked.push(format!("write {path}"));
                self.metadata = content;
                Reply::Outcome(Ok(()))
            }
            Request::TempPath(name) => Reply::Path(format!("/tmp/{name}")),
            Request::RemoveTempFile(name) => {
                self.asked.push(format!("remove {name}"));
                Reply::Outcome(Err("gone".to_owned()))
            }
            Request::ProcessId => Reply::Process(42),
            other => panic!("{other:?}"),
        }
    }

    fn asked_for(&self, line: &str) -> bool {
        self.asked.iter().any(|asked| asked.starts_with(line))
    }

    fn changed_anything(&self) -> bool {
        ["git add", "git commit --amend", "git push", "write "]
            .iter()
            .any(|line| self.asked_for(line))
    }
}

fn drive<T>(
    world: &mut World,
    workflow: impl Fn(&mut Log) -> Result<T, Stop>,
) -> Result<T, String> {
    let mut replies = Vec::new();
    world.asked.clear();
    for _ in 0..200 {
        match workflow(&mut Log::new(&replies)) {
            Ok(value) => return Ok(value),
            Err(Stop::Fail(message)) => return Err(message),
            Err(Stop::Ask(request)) => replies.push(world.answer(request)),
        }
    }
    panic!("no end")
}

fn report(
    world: &mut World,
    command: impl Fn(&mut Log) -> Result<Report, Request>,
) -> Report {
    let mut replies = Vec::new();
    for _ in 0..200 {
        match command(&mut Log::new(&replies)) {
            Ok(report) => return report,
            Err(request) => replies.push(world.answer(request)),
        }
    }
    panic!("no end")
}

fn id(user: &str, machine: &str) -> ClaimeeId {
    ClaimeeId {
        user: user.to_owned(),
        machine: machine.to_owned(),
    }
}

#[test]
fn claim_is_recorded_and_read_back() {
    let mut world = World::new();
    assert_eq!(drive(&mut world, claim_session).unwrap(), "one");
    assert_eq!(
        world.remote_metadata,
        "claimee_id=jos@desktop\ngit_user_name=Jos\ngit_user_email=jos@x\nclaimed_at_utc_unix_seconds=1000\n"
    );
    assert_eq!(
        world.asked.last().unwrap(),
        "git push --force jist HEAD:refs/heads/jist-one"
    );
    let claim = drive(&mut world, |log| remote_claim_info(log, "jist-one"))
        .unwrap()
        .unwrap();
    assert_eq!(claim.claimee_id, id("jos", "desktop"));
    assert_eq!(claim.claimed_at_utc_unix_seconds, Some(1_000));
}

#[test]
fn claimed_session_belongs_to_its_claimee() {
    let mut world = World::new();
    drive(&mut world, claim_session).unwrap();
    let gate = |log: &mut Log| ensure_claimed_by_this_machine(log, "jist-one");
    let free = |log: &mut Log| ensure_unclaimed(log, "jist-one");
    let state = |log: &mut Log| claim_state_for_branch(log, "jist-one");
    assert_eq!(drive(&mut world, gate), Ok(()));
    assert_eq!(
        drive(&mut world, free),
        Err("This JIST session is already claimed by this machine and user.".to_owned())
    );
    assert_eq!(
        drive(&mut world, state),
        Ok(ClaimState::ClaimedByCurrentSetup)
    );
    assert!(drive(&mut world, state).unwrap().is_claimed());

    world.user("eve", "laptop");
    let message = "This JIST session is claimed by `jos@desktop`, not `eve@laptop`.".to_owned();
    assert_eq!(drive(&mut world, gate), Err(message.clone()));
    assert_eq!(drive(&mut world, free), Err(message.clone()));
    assert_eq!(
        drive(&mut world, state),
        Ok(ClaimState::ClaimedByOther(id("jos", "desktop")))
    );
    assert_eq!(drive(&mut world, push_session), Err(message.clone()));
    assert!(!world.changed_anything());
    assert_eq!(drive(&mut world, unclaim_session), Err(message.clone()));
    assert!(!world.changed_anything());
    assert_eq!(drive(&mut world, claim_session), Err(message));
    assert!(!world.changed_anything());
}

#[test]
fn unclaimed_session_belongs_to_nobody() {
    let mut world = World::new();
    drive(&mut world, claim_session).unwrap();
    assert_eq!(drive(&mut world, unclaim_session).unwrap(), "one");
    assert_eq!(world.remote_metadata, "initialized=true\n");
    let message = "This JIST session has not been claimed yet.".to_owned();
    assert_eq!(drive(&mut world, push_session), Err(message.clone()));
    assert!(!world.changed_anything());
    assert_eq!(drive(&mut world, unclaim_session), Err(message));
    assert!(!world.changed_anything());
    let state = drive(&mut world, |log| claim_state_for_branch(log, "jist-one")).unwrap();
    assert!(!state.is_claimed());
    assert_eq!(drive(&mut world, claim_session).unwrap(), "one");
}

#[test]
fn claim_needs_files_in_agreement() {
    let mut world = World::new();
    world.says("git diff --name-only", "a\n");
    assert_eq!(
        drive(&mut world, claim_session),
        Err("Cannot claim this JIST session while 1 file unsynchronized.".to_owned())
    );
    assert!(!world.changed_anything());
    world.says("git ls-files", "a\nc\n");
    assert_eq!(
        drive(&mut world, claim_session),
        Err("Cannot claim this JIST session while 2 files unsynchronized.".to_owned())
    );
    let status = drive(&mut world, |log| sync_status_for_branch(log, "jist-one")).unwrap();
    assert_eq!((status.unsynced_files, status.total_files), (2, 3));
}

#[test]
fn workflows_need_a_session_branch() {
    let mut world = World::new();
    world.says("git branch --show-current", "main\n");
    for (workflow, name) in [
        (claim_session as fn(&mut Log) -> Result<String, Stop>, "claim"),
        (push_session, "push"),
        (unclaim_session, "unclaim"),
    ] {
        assert_eq!(
            drive(&mut world, workflow),
            Err(format!(
                "Check out a JIST session branch before running `jist {name}`."
            ))
        );
        assert!(!world.changed_anything());
    }
}

#[test]
fn push_amends_only_where_something_changed() {
    let mut world = World::new();
    drive(&mut world, claim_session).unwrap();
    assert_eq!(drive(&mut world, push_session).unwrap(), "one");
    assert!(world.asked_for("git add -A"));
    assert!(!world.asked_for("git commit"));
    assert!(world.asked_for("git push --force jist HEAD:refs/heads/jist-one"));
    world.fails("git diff --cached --quiet", "");
    assert_eq!(drive(&mut world, push_session).unwrap(), "one");
    assert!(world.asked_for("git commit --amend --no-edit"));
}

#[test]
fn failed_push_is_reported() {
    let mut world = World::new();
    drive(&mut world, claim_session).unwrap();
    world.fails("git push", "");
    assert_eq!(
        drive(&mut world, push_session),
        Err("Git command failed with status exit status: 1.".to_owned())
    );
}

#[test]
fn checkout_needs_clean_worktree() {
    let mut world = World::new();
    world.says("git status --porcelain", " M a\n");
    assert_eq!(
        drive(&mut world, |log| checkout_session(log, "one")),
        Err("Cannot check out a JIST session with uncommitted working changes.".to_owned())
    );
    assert_eq!(world.asked, ["git status --porcelain"]);
    world.says("git status --porcelain", "\n");
    assert_eq!(drive(&mut world, |log| checkout_session(log, "one")), Ok(()));
    assert_eq!(
        world.asked,
        [
            "git status --porcelain",
            "git fetch jist +refs/heads/jist-one:refs/remotes/jist/jist-one",
            "git show-ref --verify --quiet refs/heads/jist-one",
            "git checkout jist-one"
        ]
    );
    world.fails("git show-ref", "");
    assert_eq!(drive(&mut world, |log| checkout_session(log, "one")), Ok(()));
    assert_eq!(
        world.asked.last().unwrap(),
        "git checkout --track -b jist-one jist/jist-one"
    );
}

#[test]
fn delete_needs_confirmation() {
    let mut world = World::new();
    world.typed = "yes\n".to_owned();
    assert_eq!(
        drive(&mut world, |log| delete_session(log, "one")),
        Err("Delete cancelled.".to_owned())
    );
    assert!(!world.changed_anything());
    assert!(world.asked_for("prompt Delete JIST session `one`? Type `confirm` to continue: "));
    world.typed = "  confirm \n".to_owned();
    assert_eq!(drive(&mut world, |log| delete_session(log, "one")), Ok(()));
    assert!(world.asked_for("git push jist :refs/heads/jist-one"));
    assert_eq!(
        world.asked.last().unwrap(),
        "git fetch --prune jist +refs/heads/jist-*:refs/remotes/jist/jist-*"
    );
    world.says("git ls-remote", "");
    assert_eq!(
        drive(&mut world, |log| delete_session(log, "one")),
        Err("JIST session `one` does not exist.".to_owned())
    );
    assert!(!world.asked_for("prompt"));
}

#[test]
fn confirmation_can_fail() {
    let replies = vec![Reply::Outcome(Err("closed".to_owned()))];
    assert_eq!(
        jist::workflow::require_delete_confirmation(&mut Log::new(&replies), "x"),
        Err(Stop::Fail(
            "Failed to write confirmation prompt: closed".to_owned()
        ))
    );
    let replies = vec![
        Reply::Outcome(Ok(())),
        Reply::Line(Err("closed".to_owned())),
    ];
    assert_eq!(
        jist::workflow::require_delete_confirmation(&mut Log::new(&replies), "x"),
        Err(Stop::Fail("Failed to read confirmation: closed".to_owned()))
    );
}

#[test]
fn start_enters_a_session_that_is_there() {
    let mut world = World::new();
    world.says("git branch --show-current", "main\n");
    assert_eq!(
        drive(&mut world, |log| start_jist_session(log, "one")).unwrap(),
        "w1"
    );
    assert!(!world.changed_anything());
    assert!(world.asked_for("git checkout jist-one"));
    world.says("git branch --show-current", "");
    assert_eq!(
        drive(&mut world, |log| start_jist_session(log, "one")),
        Err("Cannot initialize JIST from a detached HEAD.".to_owned())
    );
}

#[test]
fn start_creates_a_session_that_is_missing() {
    let mut world = World::new();
    world.says("git branch --show-current", "main\n");
    world.says("git ls-remote", "");
    world.says("git rev-parse HEAD", "head\n");
    world.says("git hash-object", "blob\n");
    world.says("git write-tree", "tree\n");
    world.says("git commit-tree", "new\n");
    world.fails("gh repo view jos/jist-source", "");
    assert_eq!(
        drive(&mut world, |log| start_jist_session(log, "my session")).unwrap(),
        "new"
    );
    assert_eq!(
        world.asked[4..],
        [
            "gh repo create jos/jist-source --private",
            "git remote get-url jist",
            "git branch --show-current",
            "git ls-remote --heads jist jist-my-session",
            "git rev-parse HEAD",
            "git read-tree HEAD [/tmp/jist-init-index-42]",
            "git hash-object -w --stdin <initialized=true\n>",
            "git update-index --add --cacheinfo 100644 blob .jist-meta [/tmp/jist-init-index-42]",
            "git write-tree [/tmp/jist-init-index-42]",
            "git commit-tree tree -p head -m WIP: my session",
            "remove jist-init-index-42",
            "git push jist new:refs/heads/jist-my-session",
            "git fetch jist +refs/heads/jist-my-session:refs/remotes/jist/jist-my-session",
            "git show-ref --verify --quiet refs/heads/jist-my-session",
            "git checkout jist-my-session"
        ]
    );
}

#[test]
fn index_file_is_removed_after_a_failure() {
    let mut world = World::new();
    world.fails("git write-tree", "no tree\n");
    assert_eq!(
        drive(&mut world, |log| create_jist_meta_commit(log, "x")),
        Err("no tree".to_owned())
    );
    assert_eq!(world.asked.last().unwrap(), "remove jist-init-index-42");
}

#[test]
fn remote_is_pointed_to_the_private_repository() {
    let mut world = World::new();
    let ensure = |log: &mut Log| ensure_jist_remote(log, "jos/jist-source");
    assert_eq!(drive(&mut world, ensure), Ok(()));
    assert_eq!(world.asked, ["git remote get-url jist"]);
    world.says("git remote get-url jist", "elsewhere");
    assert_eq!(drive(&mut world, ensure), Ok(()));
    assert_eq!(
        world.asked[1],
        "git remote set-url jist https://github.com/jos/jist-source.git"
    );
    world.fails("git remote get-url jist", "no such remote");
    assert_eq!(drive(&mut world, ensure), Ok(()));
    assert_eq!(
        world.asked[1],
        "git remote add jist https://github.com/jos/jist-source.git"
    );
}

#[test]
fn private_repository_is_created_once() {
    let mut world = World::new();
    let ensure = |log: &mut Log| ensure_private_repository(log, "jos/jist-source");
    assert_eq!(drive(&mut world, ensure), Ok(()));
    assert_eq!(world.asked, ["gh repo view jos/jist-source"]);
    world.fails("gh repo", "");
    assert_eq!(
        drive(&mut world, ensure),
        Err("GitHub CLI command failed with status exit status: 1.".to_owned())
    );
    assert_eq!(world.asked[1], "gh repo create jos/jist-source --private");
}

#[test]
fn sessions_are_listed_with_their_base() {
    let mut world = World::new();
    let sessions = drive(&mut world, list_sessions).unwrap();
    assert_eq!(sessions.len(), 2);
    assert_eq!(sessions[0].name, "one");
    assert_eq!(sessions[0].base_commit, "b1");
    assert_eq!(sessions[1].working_commit, "w2");
    assert_eq!(sessions[1].base_commit, "b2");
    world.fails("git rev-parse refs/remotes/jist/jist-two^", "bad revision");
    assert_eq!(
        drive(&mut world, list_sessions),
        Err("bad revision".to_owned())
    );
}

#[test]
fn current_session_is_at_the_head_or_on_the_branch() {
    let mut world = World::new();
    world.says("git rev-parse HEAD", "w2\n");
    assert_eq!(
        drive(&mut world, current_session_name).unwrap(),
        Some("two".to_owned())
    );
    world.says("git rev-parse HEAD", "other\n");
    assert_eq!(
        drive(&mut world, current_session_name).unwrap(),
        Some("one".to_owned())
    );
    world.says("git branch --show-current", "main\n");
    assert_eq!(drive(&mut world, current_session_name).unwrap(), None);
}

#[test]
fn list_shows_all_sessions() {
    let mut world = World::new();
    assert_eq!(
        report(&mut world, cli::list),
        Report::Success(
            "Sessions:\n  - \x1b[32m*one\x1b[0m (\x1b[32mcurrent session\x1b[0m, last modified 0d 0h 1m ago)\n  - two (last modified 0d 0h 10m ago)\n"
                .to_owned()
        )
    );
    world.remote_metadata = "claimee_id=a@b".to_owned();
    world.says("git rev-parse HEAD", "other\n");
    world.says("git branch --show-current", "main\n");
    assert_eq!(
        report(&mut world, cli::list),
        Report::Success(
            "Sessions:\n  - one (\x1b[32mclaimed\x1b[0m, last modified 0d 0h 1m ago)\n  - two (\x1b[32mclaimed\x1b[0m, last modified 0d 0h 10m ago)\n"
                .to_owned()
        )
    );
    world.says("git for-each-ref", "");
    assert_eq!(
        report(&mut world, cli::list),
        Report::Success("Sessions:\n  <no sessions>\n".to_owned())
    );
    world.remote_metadata = "claimee_id=a".to_owned();
    world.says("git for-each-ref", "jist/jist-one\t940\tw1");
    assert_eq!(
        report(&mut world, cli::list),
        Report::Failure("Invalid claimee id `a`.\n".to_owned())
    );
}

#[test]
fn status_away_from_sessions_shares_them_out() {
    let mut world = World::new();
    world.says("git rev-parse HEAD", "b2\n");
    world.says("git branch --show-current", "main\n");
    world.says(
        "git for-each-ref",
        "jist/jist-one\t940\tw1\njist/jist-two\t400\tw2\njist/jist-c\t400\tw3\njist/jist-d\t400\tw4\njist/jist-e\t400\tw5\n",
    );
    world.says("git rev-parse refs/remotes/jist/jist-c^", "b3\n");
    world.says("git rev-parse refs/remotes/jist/jist-d^", "b3\n");
    world.says("git rev-parse refs/remotes/jist/jist-e^", "b3\n");
    assert_eq!(
        drive(&mut world, render_status).unwrap(),
        "You are on git commit \x1b[34mshort\x1b[0m.\n\
         The following sessions are \x1b[32mbased on this commit\x1b[0m:\n\
         \x20 - two (last modified 0d 0h 10m ago)\n\
         \n\
         Other sessions in this repository:\n\
         \x20 - one (last modified 0d 0h 1m ago)\n\
         \x20 - c (last modified 0d 0h 10m ago)\n\
         \x20 - d (last modified 0d 0h 10m ago)\n\
         \x20   +1 older session\n\
         \n\
         To display all sessions, run \x1b[34mjist list\x1b[0m.\n\
         To work on a session, run \x1b[34mjist work <session name>\x1b[0m.\n"
    );
}

#[test]
fn status_on_a_session_shows_its_page() {
    let mut world = World::new();
    assert_eq!(
        report(&mut world, cli::status),
        Report::Success(
            "You are checked out on session \x1b[32m*one\x1b[0m, based on \x1b[34mshort\x1b[0m.\n\
             Visit \x1b[34;4mhttps://jisthub.com/owner/source/session/one\x1b[0m for detailed information.\n\
             \n\
             All 2 files are \x1b[32mfully synced\x1b[0m.\n\
             \n\
             To work on this session, type \x1b[34mjist work\x1b[0m.\n\
             \n\
             Sessions:\n\
             \x20 - \x1b[32m*one\x1b[0m (\x1b[32mcurrent session\x1b[0m, last modified 0d 0h 1m ago)\n\
             \x20 - two (last modified 0d 0h 10m ago)\n"
                .to_owned()
        )
    );
}

#[test]
fn page_tells_whose_claim_it_is() {
    let mut world = World::new();
    let session = drive(&mut world, list_sessions).unwrap().remove(0);
    let page = |log: &mut Log| format_session_working_commit_status(log, &session, None);

    world.remote_metadata = "claimee_id=jos@desktop\nclaimed_at_utc_unix_seconds=940".to_owned();
    let own = drive(&mut world, page).unwrap();
    assert!(own.starts_with(
        "You have \x1b[32mclaimed\x1b[0m session \x1b[32m*one\x1b[0m, based on \x1b[34mshort\x1b[0m.\n"
    ));
    assert!(own.ends_with(
        "Your user (jos@desktop) created its claim 0d 0h 1m ago.\nTo unclaim the current session, run \x1b[34mjist unclaim\x1b[0m.\n"
    ));

    world.remote_metadata = "claimee_id=jos@desktop".to_owned();
    assert!(drive(&mut world, page)
        .unwrap()
        .contains("Your user (jos@desktop) created its claim at an unknown time."));

    world.remote_metadata = "claimee_id=eve@laptop\nclaimed_at_utc_unix_seconds=940".to_owned();
    let other = drive(&mut world, page).unwrap();
    assert!(other.starts_with("You are checked out on session"));
    assert!(other.ends_with(
        "This session is \x1b[31mclaimed\x1b[0m by another developer: eve@laptop.\nClaimed since January 1st at 12am +00:00 (0d 0h 1m ago).\n"
    ));

    world.remote_metadata = "claimee_id=eve@laptop".to_owned();
    assert!(drive(&mut world, page)
        .unwrap()
        .ends_with("Claimed for an unknown duration.\n"));

    world.variables.clear();
    world.fails("hostname", "");
    assert!(drive(&mut world, page)
        .unwrap()
        .starts_with("You are checked out on session"));
}

#[test]
fn links_are_gathered() {
    let mut world = World::new();
    let links = drive(&mut world, |log| session_links(log, "one")).unwrap();
    assert_eq!(
        links.sessionbase_url,
        "https://jisthub.com/owner/source/session/one"
    );
    assert_eq!(
        links.sessionbase_commit_url,
        "https://github.com/owner/source/commit/short"
    );
    assert_eq!(links.claim_state, ClaimState::Unclaimed);
    assert_eq!(links.sync_status, None);
    world.remote_metadata = "claimee_id=jos@desktop".to_owned();
    let links = drive(&mut world, |log| session_links(log, "one")).unwrap();
    assert_eq!(links.claim_state, ClaimState::ClaimedByCurrentSetup);
    assert_eq!(links.sync_status.unwrap().total_files, 2);
    world.says("gh repo view --json nameWithOwner", "nobody\n");
    assert_eq!(
        drive(&mut world, |log| session_links(log, "one")),
        Err("Could not parse repository `nobody`.".to_owned())
    );
}

#[test]
fn setup_comes_from_the_environment() {
    let mut world = World::new();
    let current = |log: &mut Log| ClaimeeId::current(log);
    assert_eq!(drive(&mut world, current), Ok(id("jos", "desktop")));
    world.variables = vec![
        ("USERNAME".to_owned(), "win".to_owned()),
        ("USER".to_owned(), "jos".to_owned()),
        ("COMPUTERNAME".to_owned(), " PC \n".to_owned()),
        ("HOSTNAME".to_owned(), "desktop".to_owned()),
    ];
    assert_eq!(drive(&mut world, current), Ok(id("win", "PC")));
    world.variables = vec![("USER".to_owned(), "jos".to_owned())];
    world.says("hostname", "box\n");
    assert_eq!(drive(&mut world, current), Ok(id("jos", "box")));
    world.fails("hostname", "");
    assert_eq!(
        drive(&mut world, current),
        Err("Could not determine machine id.".to_owned())
    );
    world.variables.clear();
    assert_eq!(
        drive(&mut world, current),
        Err("Could not determine local machine user.".to_owned())
    );
}

#[test]
fn wrong_owner_is_named_without_a_setup() {
    let mut world = World::new();
    world.variables.clear();
    assert_eq!(
        drive(&mut world, |log| id("a", "b").wrong_owner_message(log)).unwrap(),
        "This JIST session is claimed by `a@b`."
    );
}

#[test]
fn commands_report_their_end() {
    let mut world = World::new();
    assert_eq!(
        report(&mut world, cli::claim),
        Report::Success("Claimed JIST session `one`.\n".to_owned())
    );
    assert_eq!(
        report(&mut world, cli::push),
        Report::Success("Pushed JIST session `one`.\n".to_owned())
    );
    assert_eq!(
        report(&mut world, cli::unclaim),
        Report::Success("Unclaimed session one.\n".to_owned())
    );
    assert_eq!(
        report(&mut world, cli::unclaim),
        Report::Failure("This JIST session has not been claimed yet.\n".to_owned())
    );
    assert_eq!(
        report(&mut world, |log| cli::checkout(log, "one")),
        Report::Success("Checked out JIST session `one`.\n".to_owned())
    );
    assert_eq!(
        report(&mut world, |log| cli::delete(log, "one")),
        Report::Success("Deleted JIST session `one`.\n".to_owned())
    );
    assert_eq!(
        report(&mut world, |log| cli::session(log, "one")),
        Report::Success("Checked out JIST session `one` at `w1`.\n".to_owned())
    );
}

fn finished(success: bool, stdout: &[u8], stderr: &[u8]) -> Finished {
    Finished {
        success,
        status: "exit status: 1".to_owned(),
        stdout: stdout.to_vec(),
        stderr: stderr.to_vec(),
    }
}

#[test]
fn output_is_judged() {
    assert_eq!(
        command_output("failed", &finished(true, b" ok \n", b"")),
        Ok("ok".to_owned())
    );
    assert_eq!(
        command_output("failed", &finished(false, b"ok", b" why \n")),
        Err("why".to_owned())
    );
    assert_eq!(
        command_output("failed", &finished(false, b"ok", b" \n")),
        Err("failed".to_owned())
    );
    assert_eq!(
        command_output("failed", &finished(false, b"", b"\xffx")),
        Err("\u{fffd}x".to_owned())
    );
    assert_eq!(
        command_output("failed", &finished(false, b"", "größer".as_bytes())),
        Err("größer".to_owned())
    );
    assert_eq!(
        command_output("failed", &finished(true, "grün\n".as_bytes(), b"")),
        Ok("grün".to_owned())
    );
    let error = String::from_utf8(b"a\xff".to_vec()).unwrap_err();
    assert_eq!(
        command_output("failed", &finished(true, b"a\xff", b"")),
        Err(format!("Command returned non-UTF-8 output: {error}"))
    );
}

#[test]
fn commands_that_do_not_start_fail() {
    let replies = vec![Reply::Command(CommandReply::NotStarted("missing".to_owned()))];
    let git = Err(Stop::Fail("Failed to run git: missing".to_owned()));
    let gh = Err(Stop::Fail("Failed to run gh: missing".to_owned()));
    assert_eq!(git_status(&mut Log::new(&replies), Args::new("x")), git);
    assert_eq!(
        git_status_with_index(&mut Log::new(&replies), Args::new("x"), "i"),
        git
    );
    assert_eq!(
        git_success(&mut Log::new(&replies), Args::new("x")),
        Err(Stop::Fail("Failed to run git: missing".to_owned()))
    );
    assert_eq!(
        git_output(&mut Log::new(&replies), Args::new("x"), None),
        Err(Stop::Fail("Failed to run git: missing".to_owned()))
    );
    assert_eq!(
        git_output_with_index(&mut Log::new(&replies), Args::new("x"), "i"),
        Err(Stop::Fail("Failed to run git: missing".to_owned()))
    );
    assert_eq!(gh_status(&mut Log::new(&replies), Args::new("x")), gh);
    assert_eq!(
        gh_success(&mut Log::new(&replies), Args::new("x")),
        Err(Stop::Fail("Failed to run gh: missing".to_owned()))
    );
    assert_eq!(
        gh_output(&mut Log::new(&replies), Args::new("x")),
        Err(Stop::Fail("Failed to run gh: missing".to_owned()))
    );
    assert_eq!(
        ensure_gh_installed(&mut Log::new(&replies)),
        Err(Stop::Fail(
            "GitHub CLI (`gh`) is required for `jist session`.".to_owned()
        ))
    );
    assert_eq!(
        command_stdout(&mut Log::new(&replies), Program::Hostname),
        Ok(None)
    );
}

#[test]
fn commands_that_fail_are_told_apart() {
    let replies = vec![Reply::Command(CommandReply::Finished(finished(
        false, b"", b"",
    )))];
    assert_eq!(
        git_status(&mut Log::new(&replies), Args::new("x")),
        Err(Stop::Fail(
            "Git command failed with status exit status: 1.".to_owned()
        ))
    );
    assert_eq!(git_success(&mut Log::new(&replies), Args::new("x")), Ok(false));
    assert_eq!(
        git_output(&mut Log::new(&replies), Args::new("x"), None),
        Err(Stop::Fail("Git command failed.".to_owned()))
    );
    assert_eq!(
        gh_status(&mut Log::new(&replies), Args::new("x")),
        Err(Stop::Fail(
            "GitHub CLI command failed with status exit status: 1.".to_owned()
        ))
    );
    assert_eq!(gh_success(&mut Log::new(&replies), Args::new("x")), Ok(false));
    assert_eq!(
        gh_output(&mut Log::new(&replies), Args::new("x")),
        Err(Stop::Fail("GitHub CLI command failed.".to_owned()))
    );
    assert_eq!(ensure_gh_installed(&mut Log::new(&replies)), Ok(()));
    assert_eq!(
        command_stdout(&mut Log::new(&replies), Program::Hostname),
        Ok(None)
    );
    let replies = vec![Reply::Command(CommandReply::Finished(finished(
        true, b"\xff", b"",
    )))];
    assert_eq!(
        command_stdout(&mut Log::new(&replies), Program::Hostname),
        Ok(None)
    );
    let replies = vec![Reply::Command(CommandReply::Finished(finished(
        true, b" box\n", b"",
    )))];
    assert_eq!(
        command_stdout(&mut Log::new(&replies), Program::Hostname),
        Ok(Some(" box\n".to_owned()))
    );
}

#[test]
fn reply_of_another_sort_is_asked_again() {
    let replies = vec![Reply::Process(1)];
    match git_success(&mut Log::new(&replies), Args::new("a").arg("b")) {
        Err(Stop::Ask(Request::Command(line))) => {
            assert_eq!(line.args.words(), &["a", "b"]);
            assert_eq!(line.program, Program::Git);
            assert!(!line.collect);
        }
        other => panic!("{other:?}"),
    }
}

#[test]
fn metadata_file_can_fail_to_be_written() {
    let mut world = World::new();
    let mut replies = Vec::new();
    loop {
        match claim_session(&mut Log::new(&replies)) {
            Err(Stop::Ask(Request::WriteFile(path, _))) => {
                assert_eq!(path, ".jist-meta");
                replies.push(Reply::Outcome(Err("full".to_owned())));
            }
            Err(Stop::Ask(request)) => replies.push(world.answer(request)),
            Err(Stop::Fail(message)) => {
                assert_eq!(message, "Failed to write .jist-meta: full");
                break;
            }
            Ok(name) => panic!("{name}"),
        }
    }
}

#[test]
fn workflows_can_be_run_again() {
    let mut world = World::new();
    let mut replies = Vec::new();
    loop {
        match claim_session(&mut Log::new(&replies)) {
            Err(Stop::Ask(request)) => {
                match claim_session(&mut Log::new(&replies)) {
                    Err(Stop::Ask(again)) => assert_eq!(again, request),
                    other => panic!("{other:?}"),
                }
                replies.push(world.answer(request));
            }
            Ok(name) => {
                assert_eq!(name, "one");
                break;
            }
            Err(Stop::Fail(message)) => panic!("{message}"),
        }
    }
    let mut log = Log::new(&replies);
    assert_eq!(claim_session(&mut log), Ok("one".to_owned()));
    assert!(log.peek().is_none());

    replies.push(Reply::Process(7));
    let mut log = Log::new(&replies);
    assert_eq!(claim_session(&mut log), Ok("one".to_owned()));
    assert_eq!(log.peek(), Some(&Reply::Process(7)));
}
