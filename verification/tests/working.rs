use jist::cli::{work, Report, WorkProgress};
use jist::exchange::{
    Change, ClockReading, CommandReply, Finished, Log, Program, Reply, Request, Stop,
};
use jist::work::{
    is_git_internal_path, render_work_status, run_work_loop, work_session, LoopStage, WorkStage,
    WorkState, WORK_PUSH_DEBOUNCE,
};

const SECOND: u64 = 1_000_000_000;

struct World {
    now: u64,
    running: bool,
    change: Change,
    metadata: String,
    remote_metadata: String,
    failing: Vec<&'static str>,
    setup_failure: Option<Request>,
    printed: Vec<String>,
    asked: Vec<String>,
}

impl World {
    fn new() -> World {
        World {
            now: 0,
            running: true,
            change: Change::Quiet,
            metadata: "initialized=true\n".to_owned(),
            remote_metadata: "initialized=true\n".to_owned(),
            failing: Vec::new(),
            setup_failure: None,
            printed: Vec::new(),
            asked: Vec::new(),
        }
    }

    fn claimed() -> World {
        let mut world = World::new();
        world.remote_metadata = "claimee_id=jos@desktop\n".to_owned();
        world
    }

    fn answer(&mut self, request: Request) -> Reply {
        if self.setup_failure.as_ref() == Some(&request) {
            return Reply::Outcome(Err("broken".to_owned()));
        }
        match request {
            Request::Command(command) => {
                let program = match command.program {
                    Program::Git => "git",
                    Program::Gh => "gh",
                    Program::Hostname => "hostname",
                };
                let line = format!("{program} {}", command.args.words().join(" "));
                self.asked.push(line.clone());
                let success = !self.failing.iter().any(|failing| line.starts_with(failing));
                if success && line.starts_with("git push --force") {
                    self.remote_metadata = self.metadata.clone();
                }
                let stdout = if line.starts_with("gh repo view --json nameWithOwner") {
                    "owner/source"
                } else if line.starts_with("gh repo view --json name") {
                    "source"
                } else if line.starts_with("gh api user") {
                    "jos"
                } else if line.starts_with("git remote get-url") {
                    "https://github.com/jos/jist-source.git"
                } else if line.starts_with("git branch --show-current") {
                    "jist-one"
                } else if line.starts_with("git rev-parse") {
                    "w1"
                } else if line.starts_with("git ls-remote") {
                    "w1\trefs/heads/jist-one"
                } else if line.starts_with("git for-each-ref") {
                    "jist/jist-one\t940\tw1"
                } else if line.starts_with("git config") {
                    "x"
                } else if line.starts_with("git show ") {
                    &self.remote_metadata
                } else {
                    ""
                };
                Reply::Command(CommandReply::Finished(Finished {
                    success,
                    status: "exit status: 1".to_owned(),
                    stdout: stdout.as_bytes().to_vec(),
                    stderr: Vec::new(),
                }))
            }
            Request::Variable(name) => Reply::Variable(match name.as_str() {
                "USER" => Some("jos".to_owned()),
                "HOSTNAME" => Some("desktop".to_owned()),
                _ => None,
            }),
            Request::Clock => Reply::Clock(ClockReading::Seconds(1_000)),
            Request::Monotonic => Reply::Monotonic(self.now),
            Request::Print(text) => {
                self.printed.push(text);
                Reply::Outcome(Ok(()))
            }
            Request::WriteFile(_, content) => {
                self.metadata = content;
                Reply::Outcome(Ok(()))
            }
            Request::StillRunning => Reply::Running(self.running),
            Request::AwaitChange => {
                Reply::Change(std::mem::replace(&mut self.change, Change::Quiet))
            }
            Request::CatchInterrupts
            | Request::CreateWatcher
            | Request::FindWorkingDirectory
            | Request::WatchWorkingDirectory => {
                self.asked.push(format!("{request:?}"));
                Reply::Outcome(Ok(()))
            }
            other => panic!("{other:?}"),
        }
    }

    fn turn(&mut self, stage: &LoopStage) -> Result<LoopStage, String> {
        self.asked.clear();
        self.printed.clear();
        let mut replies = Vec::new();
        for _ in 0..300 {
            match run_work_loop(&mut Log::new(&replies), stage) {
                Ok(next) => return Ok(next),
                Err(Stop::Fail(message)) => return Err(message),
                Err(Stop::Ask(request)) => replies.push(self.answer(request)),
            }
        }
        panic!("no end")
    }

    fn stage(&mut self, name: Option<&str>, stage: &WorkStage) -> Result<WorkStage, String> {
        self.asked.clear();
        let mut replies = Vec::new();
        for _ in 0..300 {
            match work_session(&mut Log::new(&replies), name, stage) {
                Ok(next) => return Ok(next),
                Err(Stop::Fail(message)) => return Err(message),
                Err(Stop::Ask(request)) => replies.push(self.answer(request)),
            }
        }
        panic!("no end")
    }

    fn pushed(&self) -> bool {
        self.asked.iter().any(|line| line.starts_with("git push"))
    }
}

fn watching(push_deadline: Option<u128>, message: &str) -> LoopStage {
    LoopStage::Watching(WorkState {
        push_deadline,
        message: message.to_owned(),
    })
}

fn path(components: &[&str]) -> Vec<String> {
    components.iter().map(|part| (*part).to_owned()).collect()
}

#[test]
fn watch_starts_with_nothing_planned() {
    let mut world = World::claimed();
    let message = "Watching for changes. Press Ctrl+C to unclaim and exit.";
    assert_eq!(
        world.turn(&LoopStage::Starting),
        Ok(watching(None, message))
    );
    assert_eq!(
        world.asked[..4],
        [
            "CatchInterrupts",
            "CreateWatcher",
            "FindWorkingDirectory",
            "WatchWorkingDirectory"
        ]
    );
    assert_eq!(world.printed[0], "\x1b[2J\x1b[H");
    assert!(world.printed[1].ends_with(&format!("\nWork: {message}\n")));
    assert!(world.printed[1].starts_with("You have \x1b[32mclaimed\x1b[0m session"));
    assert_eq!(world.printed.len(), 2);
}

#[test]
fn watch_reports_what_it_cannot_set_up() {
    for (request, message) in [
        (
            Request::CatchInterrupts,
            "Failed to install Ctrl+C handler: broken",
        ),
        (
            Request::CreateWatcher,
            "Failed to create filesystem watcher: broken",
        ),
        (Request::FindWorkingDirectory, "Failed to read cwd: broken"),
        (
            Request::WatchWorkingDirectory,
            "Failed to watch working directory: broken",
        ),
    ] {
        let mut world = World::claimed();
        world.setup_failure = Some(request);
        assert_eq!(world.turn(&LoopStage::Starting), Err(message.to_owned()));
    }
}

#[test]
fn change_starts_the_quiet_period() {
    assert_eq!(WORK_PUSH_DEBOUNCE, 300);
    let mut world = World::claimed();
    world.now = 7 * SECOND;
    world.change = Change::Paths(vec![path(&["/", "x", ".git", "index"]), path(&["/", "x", "a"])]);
    let planned = watching(
        Some(307 * SECOND as u128),
        "Change detected. Next push after 5 minutes of quiet.",
    );
    assert_eq!(world.turn(&watching(Some(9), "m")), Ok(planned));
    assert!(!world.pushed());
    assert!(world.printed[1].contains("\nSync scheduled in 5:00\n"));
}

#[test]
fn changes_in_git_directories_are_passed_over() {
    let mut world = World::claimed();
    world.change = Change::Paths(vec![path(&[".git", "index"]), path(&["a", ".git", "b"])]);
    assert_eq!(world.turn(&watching(None, "m")), Ok(watching(None, "m")));
    assert!(world.printed.is_empty());
    world.change = Change::Paths(Vec::new());
    assert_eq!(world.turn(&watching(None, "m")), Ok(watching(None, "m")));
    assert!(is_git_internal_path(&path(&["a", ".git"])));
    assert!(!is_git_internal_path(&path(&[".gitignore", "git", ".github"])));
    assert!(!is_git_internal_path(&path(&[])));
}

#[test]
fn quiet_turns_keep_the_plan() {
    let mut world = World::claimed();
    let plan = watching(Some(300 * SECOND as u128), "m");
    for now in [1, 299 * SECOND, 300 * SECOND - 1] {
        world.now = now;
        assert_eq!(world.turn(&plan), Ok(watching(Some(300 * SECOND as u128), "m")));
        assert!(!world.pushed());
        assert_eq!(world.printed.len(), 2);
    }
}

#[test]
fn due_push_is_made_and_forgotten() {
    let mut world = World::claimed();
    world.now = 300 * SECOND;
    assert_eq!(
        world.turn(&watching(Some(300 * SECOND as u128), "m")),
        Ok(watching(None, "Pushed `one`. Watching for changes."))
    );
    assert!(world.pushed());
    assert_eq!(world.printed.len(), 6);
    assert!(world.printed[3].ends_with("\nWork: Pushing changes...\n"));
}

#[test]
fn failed_push_is_planned_again() {
    let mut world = World::claimed();
    world.failing.push("git push");
    world.now = 400 * SECOND;
    assert_eq!(
        world.turn(&watching(Some(300 * SECOND as u128), "m")),
        Ok(watching(
            Some(700 * SECOND as u128),
            "Push failed: Git command failed with status exit status: 1."
        ))
    );
}

#[test]
fn watcher_problems_are_told() {
    let mut world = World::claimed();
    world.change = Change::Problem("lost".to_owned());
    assert_eq!(
        world.turn(&watching(None, "m")),
        Ok(watching(None, "Filesystem watcher warning: lost"))
    );
    world.change = Change::Disconnected;
    assert_eq!(
        world.turn(&watching(None, "m")),
        Err("Filesystem watcher stopped unexpectedly.".to_owned())
    );
}

#[test]
fn interrupt_ends_the_watch() {
    let mut world = World::claimed();
    world.running = false;
    assert_eq!(
        world.turn(&watching(Some(1), "m")),
        Ok(LoopStage::Finished)
    );
    assert!(!world.pushed());
    assert!(world.printed[1].ends_with("\nWork: Stopping. Unclaiming session...\n"));
    assert_eq!(world.turn(&LoopStage::Finished), Ok(LoopStage::Finished));
}

#[test]
fn work_claims_first_and_unclaims_last() {
    let mut world = World::new();
    let looping = world.stage(None, &WorkStage::Starting).unwrap();
    assert_eq!(looping, WorkStage::Looping(LoopStage::Starting));
    assert!(world.remote_metadata.starts_with("claimee_id=jos@desktop\n"));
    let looping = world.stage(None, &looping).unwrap();
    world.running = false;
    let leaving = world.stage(None, &looping).unwrap();
    assert_eq!(leaving, WorkStage::Leaving(None));
    assert_eq!(world.stage(None, &leaving), Ok(WorkStage::Finished));
    assert_eq!(world.remote_metadata, "initialized=true\n");
}

#[test]
fn work_on_a_named_session_starts_it() {
    let mut world = World::new();
    assert_eq!(
        world.stage(Some("one"), &WorkStage::Starting),
        Ok(WorkStage::Looping(LoopStage::Starting))
    );
    assert!(world.asked.contains(&"git checkout jist-one".to_owned()));
}

#[test]
fn work_needs_a_session() {
    let mut world = World::new();
    let mut replies = Vec::new();
    let message = loop {
        match work_session(&mut Log::new(&replies), None, &WorkStage::Starting) {
            Err(Stop::Fail(message)) => break message,
            Err(Stop::Ask(request)) => {
                let away = match &request {
                    Request::Command(line) => match line.args.words()[0].as_str() {
                        "branch" => Some("main"),
                        "for-each-ref" => Some(""),
                        _ => None,
                    },
                    _ => None,
                };
                replies.push(match away {
                    Some(stdout) => Reply::Command(CommandReply::Finished(Finished {
                        success: true,
                        status: String::new(),
                        stdout: stdout.as_bytes().to_vec(),
                        stderr: Vec::new(),
                    })),
                    None => world.answer(request),
                });
            }
            Ok(stage) => panic!("{stage:?}"),
        }
    };
    assert_eq!(
        message,
        "Check out a JIST session or pass a session name before running `jist work`."
    );
}

#[test]
fn failed_watch_still_leads_to_unclaim() {
    let mut world = World::claimed();
    world.change = Change::Disconnected;
    let looping = WorkStage::Looping(watching(None, "m"));
    let leaving = world.stage(None, &looping).unwrap();
    let failure = "Filesystem watcher stopped unexpectedly.";
    assert_eq!(leaving, WorkStage::Leaving(Some(failure.to_owned())));
    assert_eq!(world.stage(None, &leaving), Err(failure.to_owned()));
    assert_eq!(world.remote_metadata, "initialized=true\n");

    let mut world = World::claimed();
    world.failing.push("git push");
    assert_eq!(
        world.stage(None, &leaving),
        Err(format!(
            "{failure}\nFailed to unclaim JIST session: Git command failed with status exit status: 1."
        ))
    );
    assert_eq!(
        world.stage(None, &WorkStage::Leaving(None)),
        Err(
            "Failed to unclaim JIST session: Git command failed with status exit status: 1."
                .to_owned()
        )
    );
}

#[test]
fn work_prints_nothing_at_its_end() {
    let none = Vec::new();
    assert_eq!(
        work(&mut Log::new(&none), None, &WorkStage::Finished),
        Ok(WorkProgress::Ended(Report::Success(String::new())))
    );
    assert_eq!(
        work(
            &mut Log::new(&none),
            None,
            &WorkStage::Looping(LoopStage::Finished)
        ),
        Ok(WorkProgress::Stage(WorkStage::Leaving(None)))
    );
    let replies = vec![Reply::Command(CommandReply::NotStarted("no".to_owned()))];
    assert_eq!(
        work(&mut Log::new(&replies), Some("x"), &WorkStage::Starting),
        Ok(WorkProgress::Ended(Report::Failure(
            "GitHub CLI (`gh`) is required for `jist session`.\n".to_owned()
        )))
    );
}

#[test]
fn terminal_is_cleared_first() {
    let none = Vec::new();
    assert_eq!(
        render_work_status(&mut Log::new(&none), "m", None),
        Err(Stop::Ask(Request::Print("\x1b[2J\x1b[H".to_owned())))
    );
}
