//! The life of an actor as a state machine.
//!
//! The runtime feeds the machine one signal for each thing that happened
//! (the actor was spawned, `start` returned, a message arrived, `process`
//! returned, the mailbox closed, `stop` returned) and gets back the phase
//! the actor is in now, the class under which an error is to be reported,
//! and what to do next.

use crate::error::ErrorKind;
use vstd::prelude::*;

verus! {

/// The phase of an actor.
#[derive(Debug, Clone, Copy, PartialEq, Eq, Structural)]
pub enum Phase {
    Created,
    Starting,
    Running,
    Stopping,
    Terminated,
}

/// What happened to an actor.
#[derive(Debug, Clone, Copy, PartialEq, Eq, Structural)]
pub enum Signal {
    /// The runtime took the actor over.
    Spawned,
    /// `start` returned success.
    StartSucceeded,
    /// `start` returned an error.
    StartFailed,
    /// A message arrived.
    Received,
    /// `process` returned success.
    Processed,
    /// `process` returned an error of the given class.
    ProcessFailed(ErrorKind),
    /// The mailbox was closed and holds nothing more.
    Closed,
    /// `stop` returned success.
    Stopped,
    /// `stop` returned an error.
    StopFailed,
}

/// What the runtime does next.
#[derive(Debug, Clone, Copy, PartialEq, Eq, Structural)]
pub enum Directive {
    /// Nothing new: the signal did not apply in this phase.
    Ignore,
    /// Call `start`.
    Start,
    /// Wait for the next message or for the closure of the mailbox.
    Receive,
    /// Hand the message that arrived to `process`.
    Process,
    /// Call `stop`.
    Stop,
    /// Leave; the actor's task ends.
    Exit,
}

/// The answer of the machine to one signal.
#[derive(Debug, Clone, Copy, PartialEq, Eq, Structural)]
pub struct Step {
    pub phase: Phase,
    /// The class under which the error that came with the signal goes to
    /// the error sink, if it does.
    pub report: Option<ErrorKind>,
    pub next: Directive,
}

/// The place of a phase in the order of an actor's life.
pub open spec fn rank(phase: Phase) -> nat {
    match phase {
        Phase::Created => 0,
        Phase::Starting => 1,
        Phase::Running => 2,
        Phase::Stopping => 3,
        Phase::Terminated => 4,
    }
}

/// The class under which the runtime reports an error that `process`
/// returned: the actor is up, so a startup error counts as a runtime
/// error.
pub open spec fn reported_kind(kind: ErrorKind) -> ErrorKind {
    if kind == ErrorKind::Startup {
        ErrorKind::Runtime
    } else {
        kind
    }
}

/// The answer of the machine in phase `phase` to `signal`.
///
/// A failed start ends the actor before any message is processed. An error
/// from `process` is reported and the loop goes on, unless it is a
/// shutdown error, which ends the loop. The closure of the mailbox leads
/// to `stop` and then to the exit, whatever `stop` returns. A signal that
/// does not apply in a phase changes nothing.
pub open spec fn step(phase: Phase, signal: Signal) -> Step {
    match (phase, signal) {
        (Phase::Created, Signal::Spawned) => Step {
            phase: Phase::Starting,
            report: None,
            next: Directive::Start,
        },
        (Phase::Starting, Signal::StartSucceeded) => Step {
            phase: Phase::Running,
            report: None,
            next: Directive::Receive,
        },
        (Phase::Starting, Signal::StartFailed) => Step {
            phase: Phase::Terminated,
            report: Some(ErrorKind::Startup),
            next: Directive::Exit,
        },
        (Phase::Running, Signal::Received) => Step {
            phase: Phase::Running,
            report: None,
            next: Directive::Process,
        },
        (Phase::Running, Signal::Processed) => Step {
            phase: Phase::Running,
            report: None,
            next: Directive::Receive,
        },
        (Phase::Running, Signal::ProcessFailed(kind)) => if kind == ErrorKind::Shutdown {
            Step { phase: Phase::Stopping, report: Some(ErrorKind::Shutdown), next: Directive::Stop }
        } else {
            Step {
                phase: Phase::Running,
                report: Some(reported_kind(kind)),
                next: Directive::Receive,
            }
        },
        (Phase::Running, Signal::Closed) => Step {
            phase: Phase::Stopping,
            report: None,
            next: Directive::Stop,
        },
        (Phase::Stopping, Signal::Stopped) => Step {
            phase: Phase::Terminated,
            report: None,
            next: Directive::Exit,
        },
        (Phase::Stopping, Signal::StopFailed) => Step {
            phase: Phase::Terminated,
            report: Some(ErrorKind::Shutdown),
            next: Directive::Exit,
        },
        _ => Step { phase, report: None, next: Directive::Ignore },
    }
}

/// The answer of the machine in phase `phase` to `signal`.
pub fn advance(phase: Phase, signal: Signal) -> (answer: Step)
    ensures
        answer == step(phase, signal),
{
    match (phase, signal) {
        (Phase::Created, Signal::Spawned) => Step {
            phase: Phase::Starting,
            report: None,
            next: Directive::Start,
        },
        (Phase::Starting, Signal::StartSucceeded) => Step {
            phase: Phase::Running,
            report: None,
            next: Directive::Receive,
        },
        (Phase::Starting, Signal::StartFailed) => Step {
            phase: Phase::Terminated,
            report: Some(ErrorKind::Startup),
            next: Directive::Exit,
        },
        (Phase::Running, Signal::Received) => Step {
            phase: Phase::Running,
            report: None,
            next: Directive::Process,
        },
        (Phase::Running, Signal::Processed) => Step {
            phase: Phase::Running,
            report: None,
            next: Directive::Receive,
        },
        (Phase::Running, Signal::ProcessFailed(kind)) => {
            match kind {
                ErrorKind::Shutdown => Step {
                    phase: Phase::Stopping,
                    report: Some(ErrorKind::Shutdown),
                    next: Directive::Stop,
                },
                ErrorKind::Startup => Step {
                    phase: Phase::Running,
                    report: Some(ErrorKind::Runtime),
                    next: Directive::Receive,
                },
                other => Step { phase: Phase::Running, report: Some(other), next: Directive::Receive },
            }
        },
        (Phase::Running, Signal::Closed) => Step {
            phase: Phase::Stopping,
            report: None,
            next: Directive::Stop,
        },
        (Phase::Stopping, Signal::Stopped) => Step {
            phase: Phase::Terminated,
            report: None,
            next: Directive::Exit,
        },
        (Phase::Stopping, Signal::StopFailed) => Step {
            phase: Phase::Terminated,
            report: Some(ErrorKind::Shutdown),
            next: Directive::Exit,
        },
        (phase, _) => Step { phase, report: None, next: Directive::Ignore },
    }
}

/// The phase that a new actor reaches by `signals`, in order.
pub open spec fn phase_after(signals: Seq<Signal>) -> Phase
    decreases signals.len(),
{
    if signals.len() == 0 {
        Phase::Created
    } else {
        step(phase_after(signals.drop_last()), signals.last()).phase
    }
}

/// What the runtime is told at signal `i` of the life `signals`.
pub open spec fn directive_at(signals: Seq<Signal>, i: int) -> Directive {
    step(phase_after(signals.take(i)), signals[i]).next
}

/// Whether an actor takes messages in a phase: a stopping or terminated
/// actor rejects every send.
pub open spec fn accepts_messages(phase: Phase) -> bool {
    rank(phase) <= 2
}

/// No signal takes an actor back to an earlier phase.
pub proof fn lemma_step_is_monotone(phase: Phase, signal: Signal)
    ensures
        rank(phase) <= rank(step(phase, signal).phase),
{
}

/// The phases of a life never go back.
pub proof fn lemma_life_is_monotone(signals: Seq<Signal>, i: int)
    requires
        0 <= i <= signals.len(),
    ensures
        rank(phase_after(signals.take(i))) <= rank(phase_after(signals)),
    decreases signals.len() - i,
{
    if i == signals.len() {
        assert(signals.take(i) =~= signals);
    } else {
        lemma_life_is_monotone(signals.drop_last(), i);
        assert(signals.drop_last().take(i) =~= signals.take(i));
        lemma_step_is_monotone(phase_after(signals.drop_last()), signals.last());
    }
}

/// An actor that has left the phase of starting for a later one other
/// than the end has seen `start` succeed.
proof fn lemma_running_was_started(signals: Seq<Signal>)
    requires
        phase_after(signals) == Phase::Running || phase_after(signals) == Phase::Stopping,
    ensures
        exists|j: int| 0 <= j < signals.len() && signals[j] == Signal::StartSucceeded,
    decreases signals.len(),
{
    if signals.len() > 0 {
        let before = phase_after(signals.drop_last());
        if before == Phase::Running || before == Phase::Stopping {
            lemma_running_was_started(signals.drop_last());
            let j = choose|j: int|
                0 <= j < signals.drop_last().len() && signals.drop_last()[j]
                    == Signal::StartSucceeded;
            assert(signals[j] == Signal::StartSucceeded);
        } else {
            assert(signals[signals.len() - 1] == Signal::StartSucceeded);
        }
    }
}

/// Whenever the runtime is told to hand a message to `process`, `start`
/// has returned success before.
pub proof fn lemma_process_follows_start(signals: Seq<Signal>, i: int)
    requires
        0 <= i < signals.len(),
        directive_at(signals, i) == Directive::Process,
    ensures
        exists|j: int| 0 <= j < i && signals[j] == Signal::StartSucceeded,
{
    let before = signals.take(i);
    assert(phase_after(before) == Phase::Running);
    lemma_running_was_started(before);
    let j = choose|j: int| 0 <= j < before.len() && before[j] == Signal::StartSucceeded;
    assert(signals[j] == Signal::StartSucceeded);
}

/// In the life of an actor the runtime is told to call `stop` once at
/// most, however often the mailbox is reported closed.
pub proof fn lemma_one_teardown_at_most(signals: Seq<Signal>, i: int, j: int)
    requires
        0 <= i < j < signals.len(),
        directive_at(signals, i) == Directive::Stop,
    ensures
        directive_at(signals, j) != Directive::Stop,
{
    let at_i = phase_after(signals.take(i));
    let after_i = phase_after(signals.take(i + 1));
    assert(signals.take(i + 1).drop_last() =~= signals.take(i));
    assert(signals.take(i + 1).last() == signals[i]);
    assert(after_i == Phase::Stopping);
    lemma_life_is_monotone(signals.take(j), i + 1);
    assert(signals.take(j).take(i + 1) =~= signals.take(i + 1));
    assert(rank(phase_after(signals.take(j))) >= 3);
}

/// Once the runtime was told to leave, the actor stays terminated: every
/// later signal is ignored. A failed start therefore leads to no message
/// loop and to no call of `stop`.
pub proof fn lemma_exit_is_final(signals: Seq<Signal>, i: int, j: int)
    requires
        0 <= i < j < signals.len(),
        directive_at(signals, i) == Directive::Exit,
    ensures
        directive_at(signals, j) == Directive::Ignore,
        phase_after(signals) == Phase::Terminated,
{
    assert(signals.take(i + 1).drop_last() =~= signals.take(i));
    assert(signals.take(i + 1).last() == signals[i]);
    assert(phase_after(signals.take(i + 1)) == Phase::Terminated);
    lemma_life_is_monotone(signals.take(j), i + 1);
    assert(signals.take(j).take(i + 1) =~= signals.take(i + 1));
    lemma_life_is_monotone(signals, i + 1);
}

} // verus!
