//! The periodic worker: a task that is run on every tick of a timer until
//! the worker is told to stop.
//!
//! The timer is not here. Its driver calls [`PeriodicWorker::tick`] on
//! every tick and ends the loop when the answer says so; since a tick
//! borrows the worker for itself, no two runs of the task overlap.

use crate::error::{ActorError, ActorResultVoid, ErrorKind};
use crate::runtime::ErrorHandler;
use vstd::prelude::*;

verus! {

/// The task of a periodic worker.
pub trait WorkerTaskHandler {
    fn handle(&mut self) -> ActorResultVoid;
}

/// A task that does nothing and succeeds.
#[derive(Debug, Clone, Copy, PartialEq, Eq, Structural)]
pub struct DefaultWorkerTask;

impl WorkerTaskHandler for DefaultWorkerTask {
    fn handle(&mut self) -> (done: ActorResultVoid)
        ensures
            done is Ok,
    {
        Ok(())
    }
}

/// What a tick did.
#[derive(Debug, Clone, Copy, PartialEq, Eq, Structural)]
pub enum TickOutcome {
    /// The task ran and succeeded; the loop goes on.
    Worked,
    /// The task ran and failed; the error went to the sink and the loop
    /// goes on.
    Failed,
    /// The task ran and asked for the shutdown; the error went to the sink
    /// and the loop ends.
    ShutDown,
    /// The worker was told to stop, or has ended before; the task did not
    /// run and the loop ends.
    Stopped,
}

/// What a tick did, given what the task returned: success lets the loop
/// go on, a shutdown error ends it, and every other error is reported and
/// lets the loop go on.
pub fn outcome_of(failure: Option<ErrorKind>) -> (outcome: TickOutcome)
    ensures
        outcome == match failure {
            None => TickOutcome::Worked,
            Some(ErrorKind::Shutdown) => TickOutcome::ShutDown,
            Some(_) => TickOutcome::Failed,
        },
{
    match failure {
        None => TickOutcome::Worked,
        Some(ErrorKind::Shutdown) => TickOutcome::ShutDown,
        Some(_) => TickOutcome::Failed,
    }
}

/// A worker that runs a task every `interval_ms` milliseconds.
pub struct PeriodicWorker<Task: WorkerTaskHandler> {
    stop_requested: bool,
    running: bool,
    interval_ms: u64,
    task: Task,
}

/// A periodic worker as plain values.
pub struct WorkerView {
    pub interval_ms: u64,
    /// Whether the loop was started and has not ended.
    pub running: bool,
    /// Whether the worker was told to stop.
    pub stop_requested: bool,
}

impl<Task: WorkerTaskHandler> View for PeriodicWorker<Task> {
    type V = WorkerView;

    closed spec fn view(&self) -> WorkerView {
        WorkerView {
            interval_ms: self.interval_ms,
            running: self.running,
            stop_requested: self.stop_requested,
        }
    }
}

/// When the next tick is due for a timer that ticked at `scheduled` and
/// whose task was done at `finished`: one interval after the last tick, or
/// at once where that time has passed already. Times are in milliseconds
/// and stop at the largest value.
pub open spec fn next_tick(scheduled: u64, interval_ms: u64, finished: u64) -> u64 {
    if scheduled + interval_ms > u64::MAX {
        u64::MAX
    } else if scheduled + interval_ms <= finished {
        finished
    } else {
        (scheduled + interval_ms) as u64
    }
}

impl<Task: WorkerTaskHandler> PeriodicWorker<Task> {
    /// The task of the worker. Only a tick that runs it changes it.
    pub closed spec fn task(&self) -> Task {
        self.task
    }

    /// A worker for `task` that has not been started.
    pub fn new(task: Task, interval_ms: u64) -> (worker: Self)
        ensures
            worker@ == (WorkerView { interval_ms, running: false, stop_requested: false }),
            worker.task() == task,
    {
        PeriodicWorker { stop_requested: false, running: false, interval_ms, task }
    }

    /// The interval between two ticks, in milliseconds.
    pub fn interval_ms(&self) -> (interval: u64)
        ensures
            interval == self@.interval_ms,
    {
        self.interval_ms
    }

    /// The task of the worker.
    pub fn task_ref(&self) -> (task: &Task)
        ensures
            *task == self.task(),
    {
        &self.task
    }

    /// When the next tick is due; see [`next_tick`].
    pub fn next_deadline(&self, scheduled: u64, finished: u64) -> (due: u64)
        ensures
            due == next_tick(scheduled, self@.interval_ms, finished),
    {
        match scheduled.checked_add(self.interval_ms) {
            None => u64::MAX,
            Some(due) => if due <= finished {
                finished
            } else {
                due
            },
        }
    }

    /// Starts the loop. A request to stop that came earlier is forgotten.
    /// Interval and task stay as they are.
    pub fn start(&mut self) -> (done: ActorResultVoid)
        ensures
            done is Ok,
            final(self)@ == (WorkerView { running: true, stop_requested: false, ..old(self)@ }),
            final(self).task() == old(self).task(),
    {
        self.running = true;
        self.stop_requested = false;
        Ok(())
    }

    /// Tells the worker to stop: the next tick ends the loop. This never
    /// fails, however often it is called and whether or not the loop still
    /// runs. Interval and task stay as they are.
    pub fn stop(&mut self) -> (done: ActorResultVoid)
        ensures
            done is Ok,
            final(self)@ == (WorkerView { stop_requested: true, ..old(self)@ }),
            final(self).task() == old(self).task(),
    {
        self.stop_requested = true;
        Ok(())
    }

    /// One tick. A worker that was told to stop, or that is not running,
    /// ends the loop without running the task. Else the task runs; an
    /// error goes to the sink, and only a shutdown error ends the loop.
    pub fn tick(&mut self, sink: &mut ErrorHandler) -> (outcome: TickOutcome)
        requires
            old(sink).wf(),
        ensures
            final(sink).wf(),
            final(self)@.interval_ms == old(self)@.interval_ms,
            final(self)@.stop_requested == old(self)@.stop_requested,
            (old(self)@.stop_requested || !old(self)@.running) <==> outcome == TickOutcome::Stopped,
            outcome == TickOutcome::Stopped ==> final(self).task() == old(self).task(),
            final(self)@.running == (outcome == TickOutcome::Worked || outcome
                == TickOutcome::Failed),
            match outcome {
                TickOutcome::Worked | TickOutcome::Stopped => final(sink).pending() == old(
                    sink,
                ).pending(),
                TickOutcome::Failed => exists|error: ActorError|
                    #[trigger] error.kind_of() != ErrorKind::Shutdown && final(sink).pending()
                        == ErrorHandler::reported(old(sink).pending(), error),
                TickOutcome::ShutDown => exists|error: ActorError|
                    #[trigger] error.kind_of() == ErrorKind::Shutdown && final(sink).pending()
                        == ErrorHandler::reported(old(sink).pending(), error),
            },
    {
        if self.stop_requested || !self.running {
            self.running = false;
            return TickOutcome::Stopped;
        }
        match self.task.handle() {
            Ok(()) => outcome_of(None),
            Err(error) => {
                let outcome = outcome_of(Some(error.kind()));
                sink.report(error);
                match outcome {
                    TickOutcome::ShutDown => {
                        self.running = false;
                    },
                    _ => {},
                }
                outcome
            },
        }
    }
}

} // verus!
