//! What a workflow and the outside world say to each other.
//!
//! A workflow never touches the world itself. It reads the replies that were
//! recorded so far from a [`Log`]; where the log ends, it stops and names the
//! [`Request`] that it needs answered. The caller performs that request,
//! records the reply and runs the workflow again from the start. A workflow is
//! therefore a function of its arguments and of the recorded replies, and its
//! contract says which function: a [`Run`] for every log.

use vstd::prelude::*;

verus! {

/// The programs that a workflow may start.
#[derive(Debug, Clone, Copy, PartialEq, Eq, Structural)]
pub enum Program {
    Git,
    Gh,
    Hostname,
}

/// The words that follow a program's name on its command line.
#[derive(Debug, PartialEq, Eq)]
pub struct Args {
    words: Vec<String>,
}

impl View for Args {
    type V = Seq<Seq<char>>;

    closed spec fn view(&self) -> Seq<Seq<char>> {
        self.words.deep_view()
    }
}

/// A command line whose only word is `first`.
pub open spec fn argv(first: Seq<char>) -> Seq<Seq<char>> {
    Seq::empty().push(first)
}

impl Args {
    /// No words at all.
    pub fn none() -> (args: Args)
        ensures
            args@ == Seq::<Seq<char>>::empty(),
    {
        let args = Args { words: Vec::new() };
        assert(args@ =~= Seq::<Seq<char>>::empty());
        args
    }

    pub fn new(first: &str) -> (args: Args)
        ensures
            args@ == argv(first@),
    {
        let mut words: Vec<String> = Vec::new();
        words.push(first.to_owned());
        let args = Args { words };
        assert(args@ =~= argv(first@));
        args
    }

    pub fn arg(self, word: &str) -> (args: Args)
        ensures
            args@ == self@.push(word@),
    {
        let mut words = self.words;
        words.push(word.to_owned());
        let args = Args { words };
        assert(args@ =~= self@.push(word@));
        args
    }

    /// The words, in order.
    pub fn words(&self) -> (words: &Vec<String>)
        ensures
            words.deep_view() == self@,
    {
        &self.words
    }
}

/// A command to run: the program, its arguments, the index file that git is to
/// use in place of its own, the text for its standard input, and whether its
/// output is collected or goes to the terminal.
#[derive(Debug, PartialEq, Eq)]
pub struct CommandLine {
    pub program: Program,
    pub args: Args,
    pub index_file: Option<String>,
    pub stdin: Option<String>,
    pub collect: bool,
}

#[verifier::ext_equal]
pub struct CommandLineView {
    pub program: Program,
    pub args: Seq<Seq<char>>,
    pub index_file: Option<Seq<char>>,
    pub stdin: Option<Seq<char>>,
    pub collect: bool,
}

impl View for CommandLine {
    type V = CommandLineView;

    open spec fn view(&self) -> CommandLineView {
        CommandLineView {
            program: self.program,
            args: self.args@,
            index_file: self.index_file.deep_view(),
            stdin: self.stdin.deep_view(),
            collect: self.collect,
        }
    }
}

/// Something that a workflow needs done, or needs to know, before it can go on.
#[derive(Debug, PartialEq, Eq)]
pub enum Request {
    /// Run a command. Answered by [`Reply::Command`].
    Command(CommandLine),
    /// Read an environment variable. Answered by [`Reply::Variable`].
    Variable(String),
    /// Read the wall clock. Answered by [`Reply::Clock`].
    Clock,
    /// Read the monotonic clock. Answered by [`Reply::Monotonic`].
    Monotonic,
    /// Look up the local offset from UTC at a Unix time. Answered by [`Reply::Offset`].
    LocalOffset(i64),
    /// Read the wall clock together with the local offset. Answered by [`Reply::LocalNow`].
    LocalNow,
    /// Write text to the terminal. Answered by [`Reply::Outcome`].
    Print(String),
    /// Write a prompt to the terminal and flush it. Answered by [`Reply::Outcome`].
    Prompt(String),
    /// Read a line from standard input. Answered by [`Reply::Line`].
    ReadLine,
    /// Write a file, given its path and its content. Answered by [`Reply::Outcome`].
    WriteFile(String, String),
    /// Find the path of a file of this name in the temporary directory.
    /// Answered by [`Reply::Path`].
    TempPath(String),
    /// Remove the file of this name from the temporary directory.
    /// Answered by [`Reply::Outcome`].
    RemoveTempFile(String),
    /// Find the number of this process. Answered by [`Reply::Process`].
    ProcessId,
    /// Install the handler for Ctrl+C. Answered by [`Reply::Outcome`].
    CatchInterrupts,
    /// Create the filesystem watcher. Answered by [`Reply::Outcome`].
    CreateWatcher,
    /// Find the working directory. Answered by [`Reply::Outcome`].
    FindWorkingDirectory,
    /// Start to watch the working directory. Answered by [`Reply::Outcome`].
    WatchWorkingDirectory,
    /// Ask whether no Ctrl+C was pressed so far. Answered by [`Reply::Running`].
    StillRunning,
    /// Wait up to a second for a change in the working directory.
    /// Answered by [`Reply::Change`].
    AwaitChange,
}

#[verifier::ext_equal]
pub enum RequestView {
    Command(CommandLineView),
    Variable(Seq<char>),
    Clock,
    Monotonic,
    LocalOffset(i64),
    LocalNow,
    Print(Seq<char>),
    Prompt(Seq<char>),
    ReadLine,
    WriteFile(Seq<char>, Seq<char>),
    TempPath(Seq<char>),
    RemoveTempFile(Seq<char>),
    ProcessId,
    CatchInterrupts,
    CreateWatcher,
    FindWorkingDirectory,
    WatchWorkingDirectory,
    StillRunning,
    AwaitChange,
}

impl View for Request {
    type V = RequestView;

    open spec fn view(&self) -> RequestView {
        match self {
            Request::Command(line) => RequestView::Command(line@),
            Request::Variable(name) => RequestView::Variable(name@),
            Request::Clock => RequestView::Clock,
            Request::Monotonic => RequestView::Monotonic,
            Request::LocalOffset(unix_seconds) => RequestView::LocalOffset(*unix_seconds),
            Request::LocalNow => RequestView::LocalNow,
            Request::Print(text) => RequestView::Print(text@),
            Request::Prompt(text) => RequestView::Prompt(text@),
            Request::ReadLine => RequestView::ReadLine,
            Request::WriteFile(path, content) => RequestView::WriteFile(path@, content@),
            Request::TempPath(name) => RequestView::TempPath(name@),
            Request::RemoveTempFile(name) => RequestView::RemoveTempFile(name@),
            Request::ProcessId => RequestView::ProcessId,
            Request::CatchInterrupts => RequestView::CatchInterrupts,
            Request::CreateWatcher => RequestView::CreateWatcher,
            Request::FindWorkingDirectory => RequestView::FindWorkingDirectory,
            Request::WatchWorkingDirectory => RequestView::WatchWorkingDirectory,
            Request::StillRunning => RequestView::StillRunning,
            Request::AwaitChange => RequestView::AwaitChange,
        }
    }
}

/// How a command went.
#[derive(Debug, PartialEq, Eq)]
pub enum CommandReply {
    /// It could not be started; the text says why.
    NotStarted(String),
    /// It ended.
    Finished(Finished),
}

/// What is known of a command that ended: whether it succeeded, its exit status
/// in words, and what was collected of its output.
#[derive(Debug, PartialEq, Eq)]
pub struct Finished {
    pub success: bool,
    pub status: String,
    pub stdout: Vec<u8>,
    pub stderr: Vec<u8>,
}

/// What a wait for changes brought.
#[derive(Debug, PartialEq, Eq)]
pub enum Change {
    /// Files changed; each path is given as the list of its components.
    Paths(Vec<Vec<String>>),
    /// The watcher reported a problem.
    Problem(String),
    /// Nothing happened for a second.
    Quiet,
    /// The watcher is gone.
    Disconnected,
}

/// What the wall clock showed.
#[derive(Debug, PartialEq, Eq)]
pub enum ClockReading {
    /// Whole seconds since the Unix epoch.
    Seconds(u64),
    /// A time before the Unix epoch; the text describes the problem.
    BeforeEpoch(String),
}

/// The answer to a [`Request`].
#[derive(Debug, PartialEq, Eq)]
pub enum Reply {
    Command(CommandReply),
    /// The value of the variable, if it is set and is Unicode text.
    Variable(Option<String>),
    Clock(ClockReading),
    /// Nanoseconds since some fixed moment.
    Monotonic(u64),
    /// Seconds to add to UTC for the local time.
    Offset(i32),
    /// Whole seconds since the Unix epoch, and the seconds to add to UTC for the local time.
    LocalNow(i64, i32),
    /// Whether an action succeeded, or why it failed.
    Outcome(Result<(), String>),
    /// The line that was read, or why there is none.
    Line(Result<String, String>),
    Path(String),
    Process(u32),
    Running(bool),
    Change(Change),
}

/// Why a workflow stopped short of its result.
#[derive(Debug, PartialEq, Eq)]
pub enum Stop {
    /// It failed; the text says why.
    Fail(String),
    /// It waits for the answer to a request.
    Ask(Request),
}

/// The replies recorded so far, read from the front.
pub struct Log<'a> {
    replies: &'a Vec<Reply>,
    next: usize,
}

impl<'a> View for Log<'a> {
    type V = Seq<Reply>;

    /// The replies that were not read yet.
    closed spec fn view(&self) -> Seq<Reply> {
        self.replies@.skip(self.next as int)
    }
}

impl<'a> Log<'a> {
    #[verifier::type_invariant]
    spec fn in_bounds(self) -> bool {
        self.next <= self.replies@.len()
    }

    pub fn new(replies: &'a Vec<Reply>) -> (log: Log<'a>)
        ensures
            log@ == replies@,
    {
        let log = Log { replies, next: 0 };
        assert(log@ =~= replies@);
        log
    }

    /// The next reply, which stays in the log.
    pub fn peek(&self) -> (reply: Option<&'a Reply>)
        ensures
            match reply {
                Some(reply) => self@.len() > 0 && *reply == self@[0],
                None => self@.len() == 0,
            },
    {
        proof {
            use_type_invariant(self);
        }
        if self.next < self.replies.len() {
            Some(&self.replies[self.next])
        } else {
            None
        }
    }

    /// Passes over the next reply.
    pub fn advance(&mut self)
        requires
            old(self)@.len() > 0,
        ensures
            final(self)@ == old(self)@.skip(1),
    {
        proof {
            use_type_invariant(&*self);
        }
        assert(self.next < self.replies.len());
        let next = self.next + 1;
        *self = Log { replies: self.replies, next };
        assert(self@ =~= old(self)@.skip(1));
    }
}

/// What a workflow makes of a log: a result, a failure with its message, or a
/// request that the log does not answer. The first two leave the rest of the log.
#[verifier::ext_equal]
pub enum Run<A> {
    Done(A, Seq<Reply>),
    Failed(Seq<char>, Seq<Reply>),
    Asks(RequestView),
}

impl<A> Run<A> {
    /// The run that an executed workflow took, from what it returned and the log it left.
    pub open spec fn of<T: DeepView<V = A>>(result: Result<T, Stop>, log: Seq<Reply>) -> Run<A> {
        match result {
            Ok(value) => Run::Done(value.deep_view(), log),
            Err(Stop::Fail(message)) => Run::Failed(message@, log),
            Err(Stop::Ask(request)) => Run::Asks(request@),
        }
    }

    /// The end of a run with a result or with the message of a failure.
    pub open spec fn end(result: Result<A, Seq<char>>, log: Seq<Reply>) -> Run<A> {
        match result {
            Ok(value) => Run::Done(value, log),
            Err(message) => Run::Failed(message, log),
        }
    }

    /// This run, and after its result whatever `next` makes of that result and the rest of
    /// the log.
    pub open spec fn and_then<B>(self, next: spec_fn(A, Seq<Reply>) -> Run<B>) -> Run<B> {
        match self {
            Run::Done(value, log) => next(value, log),
            Run::Failed(message, log) => Run::Failed(message, log),
            Run::Asks(request) => Run::Asks(request),
        }
    }

    /// This run, and after its failure whatever `next` makes of the message and the rest of
    /// the log.
    pub open spec fn or_else(self, next: spec_fn(Seq<char>, Seq<Reply>) -> Run<A>) -> Run<A> {
        match self {
            Run::Failed(message, log) => next(message, log),
            _ => self,
        }
    }
}

} // verus!
