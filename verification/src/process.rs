//! The child-process actor: what to run, and what to do about each thing
//! the child does.
//!
//! The actor runs one command with one argument and an environment. Its
//! driver reads the child's output line by line and hands each event to
//! [`ProcessActor::on_event`], which says what to log and when the watch
//! over the child ends. A child that is told to stop is given a grace
//! period to exit by itself, and is killed only when that has passed.

use crate::error::{ActorError, ActorResult};
use crate::runtime::{ActorServiceMessage, DEFAULT_GRACE_SECS};
use crate::text::{chars_of, concat2, copy_pairs, matches_at, occurs_at, pairs_view};
use vstd::prelude::*;

verus! {

/// A command for the operating system: a program, its arguments, and the
/// variables to add to its environment.
#[derive(Debug)]
pub struct CommandSpec {
    pub program: String,
    pub args: Vec<String>,
    pub env: Vec<(String, String)>,
    /// Whether the child is killed when its handle is dropped.
    pub kill_on_drop: bool,
}

/// The level of a log line.
#[derive(Debug, Clone, Copy, PartialEq, Eq, Structural)]
pub enum LogLevel {
    Info,
    Error,
}

/// What happened to the child.
#[derive(Debug)]
pub enum ProcessEvent {
    /// The child wrote a line to its standard output.
    StdoutLine(String),
    /// The child wrote a line to its standard error.
    StderrLine(String),
    /// The child has exited; the text describes its status.
    Exited(String),
    /// The intent to terminate the child has arrived.
    AbortRequested,
    /// The grace period that began with the intent to terminate has
    /// passed.
    GraceElapsed,
}

/// What the driver does about an event.
#[derive(Debug)]
pub struct ProcessReaction {
    pub level: LogLevel,
    /// The line to log under the actor's name, if there is one.
    pub line: Option<String>,
    /// Whether the grace period begins now: the driver reports when it
    /// has passed.
    pub start_grace: bool,
    /// Whether to kill the child.
    pub kill: bool,
    /// Whether the watch over the child has ended.
    pub finished: bool,
}

/// The view of a line that may be missing.
pub open spec fn line_view(line: Option<String>) -> Option<Seq<char>> {
    match line {
        Some(text) => Some(text@),
        None => None,
    }
}

/// The part of a path behind its last `/`.
pub open spec fn file_name(path: Seq<char>) -> Seq<char>
    decreases path.len(),
{
    if path.len() == 0 {
        path
    } else if path.last() == '/' {
        Seq::empty()
    } else {
        file_name(path.drop_last()).push(path.last())
    }
}

/// Whether a program is a Python interpreter: the name of its file starts
/// with `python`.
pub open spec fn is_python(program: Seq<char>) -> bool {
    occurs_at(file_name(program), "python"@, 0)
}

/// The file name of `path` starts behind its last `/`.
proof fn lemma_file_name(path: Seq<char>, start: int)
    requires
        0 <= start <= path.len(),
        forall|j: int| start <= j < path.len() ==> path[j] != '/',
        start > 0 ==> path[start - 1] == '/',
    ensures
        file_name(path) == path.skip(start),
    decreases path.len(),
{
    if path.len() == 0 {
        assert(path.skip(0) =~= path);
    } else if start == path.len() {
        assert(path.skip(start) =~= Seq::<char>::empty());
    } else {
        lemma_file_name(path.drop_last(), start);
        assert(path.skip(start) =~= path.drop_last().skip(start).push(path.last()));
    }
}

/// Whether `program` is a Python interpreter.
pub fn program_is_python(program: &str) -> (python: bool)
    ensures
        python == is_python(program@),
{
    let chars = chars_of(program);
    let mut start: usize = chars.len();
    while start > 0 && chars[start - 1] != '/'
        invariant
            start <= chars@.len(),
            forall|j: int| start <= j < chars@.len() ==> chars@[j] != '/',
        decreases start,
    {
        start -= 1;
    }
    proof {
        lemma_file_name(chars@, start as int);
    }
    let lead = chars_of("python");
    let found = matches_at(&chars, &lead, start);
    proof {
        let name = chars@.skip(start as int);
        if start + lead@.len() <= chars@.len() {
            assert(name.subrange(0, lead@.len() as int) =~= chars@.subrange(
                start as int,
                start + lead@.len(),
            ));
        }
    }
    found
}

/// The variable that makes a Python interpreter write its output at once.
pub open spec fn unbuffered() -> (Seq<char>, Seq<char>) {
    ("PYTHONUNBUFFERED"@, "1"@)
}

/// The environment that a child gets on top of its parent's: the given
/// variables, and behind them the variable that makes Python write at once
/// where the program is a Python interpreter.
pub open spec fn child_env(program: Seq<char>, env: Seq<(Seq<char>, Seq<char>)>) -> Seq<
    (Seq<char>, Seq<char>),
> {
    if is_python(program) {
        env.push(unbuffered())
    } else {
        env
    }
}

/// The line that is logged when the child has exited.
pub open spec fn exit_line(status: Seq<char>) -> Seq<char> {
    "The process exited with status: "@ + status
}

/// The line that is logged when the intent to terminate arrives.
pub open spec fn abort_line() -> Seq<char> {
    "Received abort signal, waiting for the process to exit..."@
}

/// The line that is logged when the child is killed.
pub open spec fn kill_line() -> Seq<char> {
    "The process did not exit within the grace period, killing it..."@
}

/// The child-process actor.
pub struct ProcessActor {
    name: String,
    exe: String,
    cmd: String,
    env: Vec<(String, String)>,
    grace_secs: u64,
    abort_requested: bool,
    terminating: bool,
    finished: bool,
}

/// A child-process actor as plain values.
pub struct ProcessView {
    pub name: Seq<char>,
    pub exe: Seq<char>,
    pub cmd: Seq<char>,
    pub env: Seq<(Seq<char>, Seq<char>)>,
    /// Seconds that the child is given to exit once it was told to stop.
    pub grace_secs: u64,
    /// Whether the actor was told to stop.
    pub abort_requested: bool,
    /// Whether the intent to terminate has arrived at the watch over the
    /// child, so that the grace period runs or has run.
    pub terminating: bool,
    /// Whether the watch over the child has ended.
    pub finished: bool,
}

impl View for ProcessActor {
    type V = ProcessView;

    closed spec fn view(&self) -> ProcessView {
        ProcessView {
            name: self.name@,
            exe: self.exe@,
            cmd: self.cmd@,
            env: pairs_view(self.env@),
            grace_secs: self.grace_secs,
            abort_requested: self.abort_requested,
            terminating: self.terminating,
            finished: self.finished,
        }
    }
}

impl ProcessView {
    /// Whether the child is killed on `GraceElapsed`: the intent to
    /// terminate has arrived and the child has not exited.
    pub open spec fn overdue(self) -> bool {
        self.terminating && !self.finished
    }

    /// Whether the child is killed on `event`.
    pub open spec fn kills(self, event: ProcessEvent) -> bool {
        event is GraceElapsed && self.overdue()
    }

    /// The actor after `event`. The intent to terminate counts while the
    /// child runs, and the watch ends when the child has exited or is
    /// killed.
    pub open spec fn after(self, event: ProcessEvent) -> ProcessView {
        ProcessView {
            abort_requested: self.abort_requested || event is AbortRequested,
            terminating: self.terminating || (event is AbortRequested && !self.finished),
            finished: self.finished || event is Exited || (event is GraceElapsed
                && self.terminating),
            ..self
        }
    }

    /// The actor after the events `events`, oldest first.
    pub open spec fn after_all(self, events: Seq<ProcessEvent>) -> ProcessView
        decreases events.len(),
    {
        if events.len() == 0 {
            self
        } else {
            self.after_all(events.drop_last()).after(events.last())
        }
    }
}

/// A watch that has ended stays ended.
proof fn lemma_finished_stays(state: ProcessView, events: Seq<ProcessEvent>, k: int)
    requires
        0 <= k <= events.len(),
        state.after_all(events.take(k)).finished,
    ensures
        state.after_all(events).finished,
    decreases events.len(),
{
    if k < events.len() {
        assert(events.drop_last().take(k) =~= events.take(k));
        lemma_finished_stays(state, events.drop_last(), k);
    } else {
        assert(events.take(k) =~= events);
    }
}

/// An actor terminates its child only when it was asked to.
proof fn lemma_terminating_was_asked(state: ProcessView, events: Seq<ProcessEvent>)
    requires
        !state.terminating,
        state.after_all(events).terminating,
    ensures
        exists|j: int| 0 <= j < events.len() && events[j] is AbortRequested,
    decreases events.len(),
{
    if events.len() > 0 {
        if state.after_all(events.drop_last()).terminating {
            lemma_terminating_was_asked(state, events.drop_last());
            let j = choose|j: int| 0 <= j < events.len() - 1 && events.drop_last()[j] is AbortRequested;
            assert(events[j] is AbortRequested);
        } else {
            assert(events[events.len() - 1] is AbortRequested);
        }
    }
}

/// A child is killed only when a grace period has passed that an intent
/// to terminate has begun: the kill answers `GraceElapsed`, and
/// `AbortRequested` stands before it among the events.
pub proof fn lemma_kill_follows_the_intent(state: ProcessView, events: Seq<ProcessEvent>, i: int)
    requires
        !state.terminating,
        0 <= i < events.len(),
        state.after_all(events.take(i)).kills(events[i]),
    ensures
        events[i] is GraceElapsed,
        exists|j: int| 0 <= j < i && events[j] is AbortRequested,
{
    lemma_terminating_was_asked(state, events.take(i));
    let j = choose|j: int| 0 <= j < i && events.take(i)[j] is AbortRequested;
    assert(events[j] is AbortRequested);
}

/// A child is killed once at most, and not after it has exited.
pub proof fn lemma_one_kill_at_most(state: ProcessView, events: Seq<ProcessEvent>, i: int, j: int)
    requires
        0 <= i < j < events.len(),
        state.after_all(events.take(i)).kills(events[i]) || events[i] is Exited,
    ensures
        !state.after_all(events.take(j)).kills(events[j]),
{
    let upto = events.take(j);
    assert(upto.take(i + 1) =~= events.take(i + 1));
    assert(events.take(i + 1).drop_last() =~= events.take(i));
    assert(events.take(i + 1).last() == events[i]);
    lemma_finished_stays(state, upto, i + 1);
}

impl ProcessActor {
    /// An actor that runs `exe` with the one argument `cmd` and the
    /// variables `env`, and logs under `name`. The grace period is the
    /// default one of sixty seconds.
    pub fn new(name: &str, exe: &str, cmd: &str, env: Vec<(String, String)>) -> (actor: Self)
        ensures
            actor@ == (ProcessView {
                name: name@,
                exe: exe@,
                cmd: cmd@,
                env: pairs_view(env@),
                grace_secs: 60,
                abort_requested: false,
                terminating: false,
                finished: false,
            }),
    {
        ProcessActor {
            name: String::from_str(name),
            exe: String::from_str(exe),
            cmd: String::from_str(cmd),
            env,
            grace_secs: DEFAULT_GRACE_SECS,
            abort_requested: false,
            terminating: false,
            finished: false,
        }
    }

    /// The same actor with another grace period.
    pub fn with_grace(self, grace_secs: u64) -> (actor: Self)
        ensures
            actor@ == (ProcessView { grace_secs, ..self@ }),
    {
        ProcessActor {
            name: self.name,
            exe: self.exe,
            cmd: self.cmd,
            env: self.env,
            grace_secs,
            abort_requested: self.abort_requested,
            terminating: self.terminating,
            finished: self.finished,
        }
    }

    /// The name under which the actor logs.
    pub fn name(&self) -> (name: &String)
        ensures
            name@ == self@.name,
    {
        &self.name
    }

    /// Seconds that the child is given to exit once it was told to stop.
    pub fn grace_secs(&self) -> (secs: u64)
        ensures
            secs == self@.grace_secs,
    {
        self.grace_secs
    }

    /// Whether the watch over the child has ended.
    pub fn is_finished(&self) -> (finished: bool)
        ensures
            finished == self@.finished,
    {
        self.finished
    }

    /// The command to spawn: the executable and the argument as they are,
    /// the environment of [`child_env`], and the child killed on drop.
    pub fn command(&self) -> (command: CommandSpec)
        ensures
            command.program@ == self@.exe,
            command.args@.len() == 1,
            command.args@[0]@ == self@.cmd,
            pairs_view(command.env@) == child_env(self@.exe, self@.env),
            command.kill_on_drop,
    {
        let mut args: Vec<String> = Vec::new();
        args.push(self.cmd.clone());
        let mut env = copy_pairs(&self.env);
        if program_is_python(self.exe.as_str()) {
            let ghost held = env@;
            let name = String::from_str("PYTHONUNBUFFERED");
            let value = String::from_str("1");
            env.push((name, value));
            assert(pairs_view(env@) =~= pairs_view(held).push(unbuffered()));
        }
        CommandSpec { program: self.exe.clone(), args, env, kill_on_drop: true }
    }

    /// What to do about `event`.
    ///
    /// A line that the child wrote is logged as it is, at level info
    /// where it came from the standard output and at level error where it
    /// came from the standard error. The exit of the child is logged and
    /// ends the watch. The intent to terminate begins the grace period,
    /// once; the child is killed only when the grace period has passed
    /// and it has not exited, and that ends the watch too.
    pub fn on_event(&mut self, event: ProcessEvent) -> (reaction: ProcessReaction)
        ensures
            final(self)@ == old(self)@.after(event),
            reaction.finished == final(self)@.finished,
            reaction.kill == old(self)@.kills(event),
            reaction.start_grace == (event is AbortRequested && !old(self)@.terminating && !old(
                self,
            )@.finished),
            match event {
                ProcessEvent::StdoutLine(line) => {
                    &&& reaction.level == LogLevel::Info
                    &&& line_view(reaction.line) == Some(line@)
                },
                ProcessEvent::StderrLine(line) => {
                    &&& reaction.level == LogLevel::Error
                    &&& line_view(reaction.line) == Some(line@)
                },
                ProcessEvent::Exited(status) => {
                    &&& reaction.level == LogLevel::Info
                    &&& line_view(reaction.line) == Some(exit_line(status@))
                },
                ProcessEvent::AbortRequested => {
                    &&& reaction.level == LogLevel::Info
                    &&& line_view(reaction.line) == if old(self)@.finished {
                        None
                    } else {
                        Some(abort_line())
                    }
                },
                ProcessEvent::GraceElapsed => {
                    &&& reaction.level == LogLevel::Info
                    &&& line_view(reaction.line) == if old(self)@.overdue() {
                        Some(kill_line())
                    } else {
                        None
                    }
                },
            },
    {
        match event {
            ProcessEvent::StdoutLine(line) => ProcessReaction {
                level: LogLevel::Info,
                line: Some(line),
                start_grace: false,
                kill: false,
                finished: self.finished,
            },
            ProcessEvent::StderrLine(line) => ProcessReaction {
                level: LogLevel::Error,
                line: Some(line),
                start_grace: false,
                kill: false,
                finished: self.finished,
            },
            ProcessEvent::Exited(status) => {
                self.finished = true;
                ProcessReaction {
                    level: LogLevel::Info,
                    line: Some(concat2("The process exited with status: ", status.as_str())),
                    start_grace: false,
                    kill: false,
                    finished: true,
                }
            },
            ProcessEvent::AbortRequested => {
                self.abort_requested = true;
                if self.finished {
                    ProcessReaction {
                        level: LogLevel::Info,
                        line: None,
                        start_grace: false,
                        kill: false,
                        finished: true,
                    }
                } else {
                    let first = !self.terminating;
                    self.terminating = true;
                    ProcessReaction {
                        level: LogLevel::Info,
                        line: Some(
                            String::from_str(
                                "Received abort signal, waiting for the process to exit...",
                            ),
                        ),
                        start_grace: first,
                        kill: false,
                        finished: false,
                    }
                }
            },
            ProcessEvent::GraceElapsed => {
                if self.terminating && !self.finished {
                    self.finished = true;
                    ProcessReaction {
                        level: LogLevel::Info,
                        line: Some(
                            String::from_str(
                                "The process did not exit within the grace period, killing it...",
                            ),
                        ),
                        start_grace: false,
                        kill: true,
                        finished: true,
                    }
                } else {
                    ProcessReaction {
                        level: LogLevel::Info,
                        line: None,
                        start_grace: false,
                        kill: false,
                        finished: self.finished,
                    }
                }
            },
        }
    }

    /// Takes a service message. `Start` does nothing, for the child is
    /// spawned when the actor starts. `Stop` asks for the child to be
    /// terminated: the answer is whether the intent to terminate is to be
    /// sent to the watch over the child, which it is the first time only.
    pub fn handle(&mut self, message: ActorServiceMessage) -> (signal: ActorResult<bool>)
        ensures
            signal is Ok,
            signal->Ok_0 == (message == ActorServiceMessage::Stop && !old(self)@.abort_requested),
            final(self)@ == (ProcessView {
                abort_requested: old(self)@.abort_requested || message
                    == ActorServiceMessage::Stop,
                ..old(self)@
            }),
    {
        match message {
            ActorServiceMessage::Start => Ok(false),
            ActorServiceMessage::Stop => {
                let first = !self.abort_requested;
                self.abort_requested = true;
                Ok(first)
            },
        }
    }
}

/// The error of a child that could not be spawned.
pub fn spawn_failed(detail: &str) -> (error: ActorError)
    ensures
        error matches ActorError::StartupError(m) && m@ == "Failed to spawn the process: "@
            + detail@,
{
    ActorError::StartupError(concat2("Failed to spawn the process: ", detail))
}

/// The error of a child that could not be killed.
pub fn kill_failed(detail: &str) -> (error: ActorError)
    ensures
        error matches ActorError::ShutdownError(m) && m@ == "Failed to kill the process: "@
            + detail@,
{
    ActorError::ShutdownError(concat2("Failed to kill the process: ", detail))
}

} // verus!
