//! What to run when a watched path changes, and how a run of it is supervised.
//!
//! The supervisor never touches a process itself. It is a function from what
//! was last observed of the child to the next thing to do with it: the caller
//! performs that and reports what happened, until the answer is
//! [`Directive::Finish`].

use crate::text::{decimal, opt_text, split_whitespace, texts, to_decimal, words};
use vstd::prelude::*;

verus! {

/// Milliseconds to wait between two looks at a running child.
pub const POLL_INTERVAL_MS: u64 = 100;

/// The shell that wraps a command line.
pub open spec fn shell_path() -> Seq<char> {
    "/bin/sh"@
}

/// The flag that makes the shell read its command from the next argument.
pub open spec fn shell_flag() -> Seq<char> {
    "-c"@
}

/// Name of the environment variable that tells the teardown command the
/// process id of the child that ran out of time.
pub open spec fn pid_variable() -> Seq<char> {
    "CMD_PID"@
}

/// What is said of a command that holds no word and is not run in a shell.
pub open spec fn empty_command_cause() -> Seq<char> {
    "the command is empty"@
}

/// A command in mathematical form.
pub struct CommandView {
    pub wrap_shell: bool,
    pub once: bool,
    pub timeout_ms: Option<u64>,
    pub command: Seq<char>,
    pub teardown: Option<Seq<char>>,
}

impl CommandView {
    /// A teardown command is only kept together with a timeout.
    pub open spec fn wf(self) -> bool {
        self.teardown is Some ==> self.timeout_ms is Some
    }

    /// Program and arguments of the child: the shell with the whole text as
    /// one argument, or the words of the text. Empty where there is no word.
    pub open spec fn argv(self) -> Seq<Seq<char>> {
        if self.wrap_shell {
            seq![shell_path(), shell_flag(), self.command]
        } else {
            words(self.command)
        }
    }

    /// Whether a child that has run for `elapsed_ms` has run out of time.
    pub open spec fn timed_out(self, elapsed_ms: u64) -> bool {
        self.timeout_ms matches Some(limit) && elapsed_ms > limit
    }

    /// The command in one line: its text, then the timeout with the
    /// teardown command before it, then the flags that are set.
    pub open spec fn describe(self) -> Seq<char> {
        "command["@ + self.command + "]"@ + (match self.timeout_ms {
            Some(limit) => (match self.teardown {
                Some(teardown) => " teardown["@ + teardown + "]"@,
                None => Seq::empty(),
            }) + " timeout_ms["@ + decimal(limit as nat) + "]"@,
            None => Seq::empty(),
        }) + (if self.wrap_shell {
            " wrap_shell"@
        } else {
            Seq::empty()
        }) + (if self.once {
            " once"@
        } else {
            Seq::empty()
        })
    }
}

/// What to run, how long it may run, and what to do when it runs too long.
#[derive(Debug, PartialEq, Eq)]
pub struct Command {
    wrap_shell: bool,
    once: bool,
    timeout_ms: Option<u64>,
    command: String,
    teardown: Option<String>,
}

impl View for Command {
    type V = CommandView;

    closed spec fn view(&self) -> CommandView {
        CommandView {
            wrap_shell: self.wrap_shell,
            once: self.once,
            timeout_ms: self.timeout_ms,
            command: self.command@,
            teardown: opt_text(self.teardown),
        }
    }
}

/// A process to start.
#[derive(Debug, PartialEq, Eq)]
pub struct Launch {
    pub program: String,
    pub args: Vec<String>,
    pub env: Vec<(String, String)>,
}

/// A process to start, in mathematical form.
pub struct LaunchView {
    pub program: Seq<char>,
    pub args: Seq<Seq<char>>,
    pub env: Seq<(Seq<char>, Seq<char>)>,
}

/// The texts of a list of environment settings.
pub open spec fn env_texts(env: Seq<(String, String)>) -> Seq<(Seq<char>, Seq<char>)> {
    Seq::new(env.len(), |i: int| (env[i].0@, env[i].1@))
}

impl View for Launch {
    type V = LaunchView;

    open spec fn view(&self) -> LaunchView {
        LaunchView { program: self.program@, args: texts(self.args@), env: env_texts(self.env@) }
    }
}

/// How one supervised run of the command ended.
#[derive(Debug, PartialEq, Eq)]
pub enum RunResult {
    /// The child ended by itself with this exit code.
    Exited(i32),
    /// The child was ended by a signal, or ran out of time.
    Killed,
    /// The child could not be started, watched or signalled.
    SpawnError(String),
}

/// The end of a run, in mathematical form.
pub enum RunResultView {
    Exited(i32),
    Killed,
    SpawnError(Seq<char>),
}

impl View for RunResult {
    type V = RunResultView;

    open spec fn view(&self) -> RunResultView {
        match self {
            RunResult::Exited(code) => RunResultView::Exited(*code),
            RunResult::Killed => RunResultView::Killed,
            RunResult::SpawnError(cause) => RunResultView::SpawnError(cause@),
        }
    }
}

impl RunResultView {
    /// The exit code that stands for this result: the child's own, or 1
    /// where it left none.
    pub open spec fn exit_code(self) -> i32 {
        match self {
            RunResultView::Exited(code) => code,
            _ => 1,
        }
    }
}

impl RunResult {
    /// The exit code with which the whole program ends after this run, where
    /// it is to end after one run.
    pub fn exit_code(&self) -> (code: i32)
        ensures
            code == self@.exit_code(),
    {
        match self {
            RunResult::Exited(code) => *code,
            _ => 1,
        }
    }
}

/// What the caller saw after it did what the last directive asked.
#[derive(Debug, PartialEq, Eq)]
pub enum Observation {
    /// The child was started.
    Spawned,
    /// The child could not be started.
    SpawnFailed(String),
    /// The child still runs, `elapsed_ms` after it was started.
    Running { pid: u32, elapsed_ms: u64 },
    /// The child has ended, with an exit code unless a signal ended it.
    Exited { code: Option<i32> },
    /// Looking at the child failed.
    WaitFailed(String),
    /// The teardown command was run, whatever became of it.
    TornDown,
    /// The child was told to terminate, or had already ended.
    Terminated,
    /// The child could not be told to terminate.
    KillFailed(String),
}

/// An observation in mathematical form.
pub enum ObservationView {
    Spawned,
    SpawnFailed(Seq<char>),
    Running { pid: u32, elapsed_ms: u64 },
    Exited { code: Option<i32> },
    WaitFailed(Seq<char>),
    TornDown,
    Terminated,
    KillFailed(Seq<char>),
}

impl View for Observation {
    type V = ObservationView;

    open spec fn view(&self) -> ObservationView {
        match self {
            Observation::Spawned => ObservationView::Spawned,
            Observation::SpawnFailed(cause) => ObservationView::SpawnFailed(cause@),
            Observation::Running { pid, elapsed_ms } => ObservationView::Running {
                pid: *pid,
                elapsed_ms: *elapsed_ms,
            },
            Observation::Exited { code } => ObservationView::Exited { code: *code },
            Observation::WaitFailed(cause) => ObservationView::WaitFailed(cause@),
            Observation::TornDown => ObservationView::TornDown,
            Observation::Terminated => ObservationView::Terminated,
            Observation::KillFailed(cause) => ObservationView::KillFailed(cause@),
        }
    }
}

/// The next thing to do with the child.
#[derive(Debug, PartialEq, Eq)]
pub enum Directive {
    /// Start the child.
    Spawn(Launch),
    /// Wait until the child has ended.
    Wait,
    /// Wait `delay_ms`, then look whether the child still runs.
    Poll { delay_ms: u64 },
    /// Run the teardown command and wait for it.
    Teardown(Launch),
    /// Tell the child to terminate.
    Kill,
    /// The run is over.
    Finish(RunResult),
}

/// A directive in mathematical form.
pub enum DirectiveView {
    Spawn(LaunchView),
    Wait,
    Poll { delay_ms: u64 },
    Teardown(LaunchView),
    Kill,
    Finish(RunResultView),
}

impl View for Directive {
    type V = DirectiveView;

    open spec fn view(&self) -> DirectiveView {
        match self {
            Directive::Spawn(launch) => DirectiveView::Spawn(launch@),
            Directive::Wait => DirectiveView::Wait,
            Directive::Poll { delay_ms } => DirectiveView::Poll { delay_ms: *delay_ms },
            Directive::Teardown(launch) => DirectiveView::Teardown(launch@),
            Directive::Kill => DirectiveView::Kill,
            Directive::Finish(result) => DirectiveView::Finish(result@),
        }
    }
}

impl CommandView {
    /// The first directive of a run: start the child, or give up at once
    /// where the command names no program.
    pub open spec fn first_directive(self) -> DirectiveView {
        let argv = self.argv();
        if argv.len() == 0 {
            DirectiveView::Finish(RunResultView::SpawnError(empty_command_cause()))
        } else {
            DirectiveView::Spawn(
                LaunchView { program: argv[0], args: argv.skip(1), env: Seq::empty() },
            )
        }
    }

    /// What to do with a child that ran out of time: run the teardown
    /// command with the child's process id in its environment, or, without
    /// one, tell the child to terminate.
    pub open spec fn timeout_directive(self, pid: u32) -> DirectiveView {
        match self.teardown {
            Some(teardown) => DirectiveView::Teardown(
                LaunchView {
                    program: shell_path(),
                    args: seq![shell_flag(), teardown],
                    env: seq![(pid_variable(), decimal(pid as nat))],
                },
            ),
            None => DirectiveView::Kill,
        }
    }

    /// How a running child is watched: without a timeout by waiting for its
    /// end, with one by looking at it after `delay_ms`.
    pub open spec fn watch_directive(self, delay_ms: u64) -> DirectiveView {
        if self.timeout_ms is None {
            DirectiveView::Wait
        } else {
            DirectiveView::Poll { delay_ms }
        }
    }

    /// The directive that answers an observation.
    pub open spec fn next_directive(self, seen: ObservationView) -> DirectiveView {
        match seen {
            ObservationView::Spawned => self.watch_directive(0),
            ObservationView::SpawnFailed(cause) => DirectiveView::Finish(
                RunResultView::SpawnError(cause),
            ),
            ObservationView::Running { pid, elapsed_ms } => if self.timed_out(elapsed_ms) {
                self.timeout_directive(pid)
            } else {
                self.watch_directive(POLL_INTERVAL_MS)
            },
            ObservationView::Exited { code: Some(code) } => DirectiveView::Finish(
                RunResultView::Exited(code),
            ),
            ObservationView::Exited { code: None } => DirectiveView::Finish(RunResultView::Killed),
            ObservationView::WaitFailed(cause) => DirectiveView::Finish(
                RunResultView::SpawnError(cause),
            ),
            ObservationView::TornDown => DirectiveView::Finish(RunResultView::Killed),
            ObservationView::Terminated => DirectiveView::Finish(RunResultView::Killed),
            ObservationView::KillFailed(cause) => DirectiveView::Finish(
                RunResultView::SpawnError(cause),
            ),
        }
    }
}

impl Command {
    #[verifier::type_invariant]
    spec fn inv(self) -> bool {
        self@.wf()
    }

    /// Describes a command. A teardown command given without a timeout could
    /// never run and is dropped.
    pub fn new(
        wrap_shell: bool,
        once: bool,
        timeout_ms: Option<u64>,
        command: String,
        teardown: Option<String>,
    ) -> (r: Command)
        ensures
            r@.wf(),
            r@ == (CommandView {
                wrap_shell,
                once,
                timeout_ms,
                command: command@,
                teardown: if timeout_ms is Some {
                    opt_text(teardown)
                } else {
                    None
                },
            }),
    {
        let teardown: Option<String> = if timeout_ms.is_some() {
            teardown
        } else {
            None
        };
        Command { wrap_shell, once, timeout_ms, command, teardown }
    }

    /// Whether the command line is handed to a shell.
    pub fn wrap_shell(&self) -> (r: bool)
        ensures
            r == self@.wrap_shell,
    {
        self.wrap_shell
    }

    /// Whether the whole program ends after the first run.
    pub fn once(&self) -> (r: bool)
        ensures
            r == self@.once,
    {
        self.once
    }

    /// How long a run may take, in milliseconds.
    pub fn timeout_ms(&self) -> (r: Option<u64>)
        ensures
            r == self@.timeout_ms,
    {
        self.timeout_ms
    }

    /// The command line.
    pub fn command(&self) -> (r: &String)
        ensures
            r@ == self@.command,
    {
        &self.command
    }

    /// The teardown command, if there is one.
    pub fn teardown(&self) -> (r: &Option<String>)
        ensures
            opt_text(*r) == self@.teardown,
            self@.wf(),
    {
        proof {
            use_type_invariant(self);
        }
        &self.teardown
    }

    /// Describes the command in one line.
    pub fn describe(&self) -> (r: String)
        ensures
            r@ == self@.describe(),
    {
        let mut r: String = String::from_str("command[");
        r.append(self.command.as_str());
        r.append("]");
        let ghost head = r@;
        let ghost mut limit_part: Seq<char> = Seq::empty();
        if let Some(limit) = self.timeout_ms {
            let ghost mut teardown_part: Seq<char> = Seq::empty();
            if let Some(teardown) = &self.teardown {
                r.append(" teardown[");
                r.append(teardown.as_str());
                r.append("]");
                proof {
                    teardown_part = " teardown["@ + teardown@ + "]"@;
                }
            }
            assert(r@ =~= head + teardown_part);
            r.append(" timeout_ms[");
            r.append(to_decimal(limit).as_str());
            r.append("]");
            proof {
                limit_part = teardown_part + " timeout_ms["@ + decimal(limit as nat) + "]"@;
            }
        }
        assert(r@ =~= head + limit_part);
        let ghost mut shell_part: Seq<char> = Seq::empty();
        if self.wrap_shell {
            r.append(" wrap_shell");
            proof {
                shell_part = " wrap_shell"@;
            }
        }
        assert(r@ =~= head + limit_part + shell_part);
        let ghost mut once_part: Seq<char> = Seq::empty();
        if self.once {
            r.append(" once");
            proof {
                once_part = " once"@;
            }
        }
        assert(r@ =~= head + limit_part + shell_part + once_part);
        r
    }

    /// Begins a run: says how to start the child.
    pub fn run(&self) -> (first: Directive)
        ensures
            first@ == self@.first_directive(),
    {
        if self.wrap_shell {
            let mut args: Vec<String> = Vec::new();
            args.push(String::from_str("-c"));
            args.push(self.command.clone());
            let launch = Launch { program: String::from_str("/bin/sh"), args, env: Vec::new() };
            assert(launch@.args =~= self@.argv().skip(1));
            assert(launch@.env =~= Seq::empty());
            Directive::Spawn(launch)
        } else {
            let mut argv: Vec<String> = split_whitespace(self.command.as_str());
            if argv.len() == 0 {
                Directive::Finish(RunResult::SpawnError(String::from_str("the command is empty")))
            } else {
                let program: String = argv.remove(0);
                let launch = Launch { program, args: argv, env: Vec::new() };
                assert(launch@.args =~= self@.argv().skip(1));
                assert(launch@.env =~= Seq::empty());
                Directive::Spawn(launch)
            }
        }
    }

    /// Says how the running child is watched next.
    fn watch(&self, delay_ms: u64) -> (next: Directive)
        ensures
            next@ == self@.watch_directive(delay_ms),
    {
        if self.timeout_ms.is_some() {
            Directive::Poll { delay_ms }
        } else {
            Directive::Wait
        }
    }

    /// Answers one observation of the child with the next directive: goes on
    /// watching it, steps in when it has run out of time, or ends the run.
    pub fn wait_timeout(&self, seen: Observation) -> (next: Directive)
        ensures
            next@ == self@.next_directive(seen@),
    {
        match seen {
            Observation::Spawned => self.watch(0),
            Observation::SpawnFailed(cause) => Directive::Finish(RunResult::SpawnError(cause)),
            Observation::Running { pid, elapsed_ms } => {
                let late: bool = match self.timeout_ms {
                    Some(limit) => elapsed_ms > limit,
                    None => false,
                };
                if late {
                    self.handle_timeout(pid)
                } else {
                    self.watch(POLL_INTERVAL_MS)
                }
            },
            Observation::Exited { code: Some(code) } => Directive::Finish(RunResult::Exited(code)),
            Observation::Exited { code: None } => Directive::Finish(RunResult::Killed),
            Observation::WaitFailed(cause) => Directive::Finish(RunResult::SpawnError(cause)),
            Observation::TornDown => Directive::Finish(RunResult::Killed),
            Observation::Terminated => Directive::Finish(RunResult::Killed),
            Observation::KillFailed(cause) => Directive::Finish(RunResult::SpawnError(cause)),
        }
    }

    /// Says what to do with the child `pid` once it has run out of time.
    pub fn handle_timeout(&self, pid: u32) -> (next: Directive)
        ensures
            next@ == self@.timeout_directive(pid),
    {
        match &self.teardown {
            Some(teardown) => {
                let mut args: Vec<String> = Vec::new();
                args.push(String::from_str("-c"));
                args.push(teardown.clone());
                let mut env: Vec<(String, String)> = Vec::new();
                env.push((String::from_str("CMD_PID"), to_decimal(pid as u64)));
                let launch = Launch { program: String::from_str("/bin/sh"), args, env };
                assert(launch@.args =~= seq![shell_flag(), teardown@]);
                assert(launch@.env =~= seq![(pid_variable(), decimal(pid as nat))]);
                Directive::Teardown(launch)
            },
            None => Directive::Kill,
        }
    }
}

/// A child whose time is not up is left alone: without a timeout the caller
/// waits for its end, however long it runs; with one the child is looked at
/// again after one interval. A child that is seen to have ended is reported
/// as ended, whether its time was up or not.
pub proof fn law_in_time_left_alone(c: CommandView, pid: u32, elapsed_ms: u64, code: i32)
    ensures
        c.timeout_ms is None ==> c.next_directive(ObservationView::Running { pid, elapsed_ms })
            == DirectiveView::Wait,
        c.timeout_ms is Some && !c.timed_out(elapsed_ms) ==> c.next_directive(
            ObservationView::Running { pid, elapsed_ms },
        ) == (DirectiveView::Poll { delay_ms: POLL_INTERVAL_MS }),
        c.next_directive(ObservationView::Exited { code: Some(code) }) == DirectiveView::Finish(
            RunResultView::Exited(code),
        ),
{
}

/// A child that still runs when its time is up is stepped in on at once,
/// and the run then counts as killed. With a teardown command, that command
/// is run through the shell with the process id of the child in its
/// environment, and the run is killed whatever became of the teardown
/// command. Without one, the child is told to terminate.
pub proof fn law_timeout_ends_in_killed(c: CommandView, pid: u32, elapsed_ms: u64)
    requires
        c.timed_out(elapsed_ms),
    ensures
        match c.teardown {
            Some(teardown) => {
                &&& c.next_directive(ObservationView::Running { pid, elapsed_ms })
                    == DirectiveView::Teardown(
                    LaunchView {
                        program: shell_path(),
                        args: seq![shell_flag(), teardown],
                        env: seq![(pid_variable(), decimal(pid as nat))],
                    },
                )
                &&& c.next_directive(ObservationView::TornDown) == DirectiveView::Finish(
                    RunResultView::Killed,
                )
            },
            None => {
                &&& c.next_directive(ObservationView::Running { pid, elapsed_ms })
                    == DirectiveView::Kill
                &&& c.next_directive(ObservationView::Terminated) == DirectiveView::Finish(
                    RunResultView::Killed,
                )
            },
        },
{
}

} // verus!
