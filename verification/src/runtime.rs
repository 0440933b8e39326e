//! The actor runtime: an actor behind its mailbox, driven one turn at a
//! time, with its errors forwarded to the error sink.

use crate::error::{ActorError, ActorResultVoid, ErrorKind};
use crate::lifecycle::{
    accepts_messages, advance, directive_at, lemma_process_follows_start, phase_after, Directive,
    Phase, Signal,
};
use crate::mailbox::{Delivery, Mailbox, MailboxView, Refusal, TrySendError};
use vstd::prelude::*;

verus! {

/// The envelope that every actor accepts.
#[derive(Debug, Clone, Copy, PartialEq, Eq, Structural)]
pub enum ActorServiceMessage {
    Start,
    Stop,
}

/// What an actor does. The runtime calls `start` once, then `process` for
/// each message in the order of arrival, then `stop` once.
pub trait Server<Mes> {
    fn start(&mut self) -> ActorResultVoid;

    fn stop(&mut self) -> ActorResultVoid;

    fn process(&mut self, message: Mes) -> ActorResultVoid;
}

/// Number of error records that the sink holds.
pub const ERROR_SINK_CAPACITY: usize = 100;

/// The error sink: a bounded queue of error records, in order of arrival.
pub struct ErrorHandler {
    inbox: Mailbox<ActorError>,
}

impl ErrorHandler {
    /// The records that wait to be handled, oldest first.
    pub closed spec fn pending(&self) -> Seq<ActorError> {
        self.inbox@.pending
    }

    /// The sink holds a hundred records at most.
    pub closed spec fn wf(&self) -> bool {
        self.inbox.wf() && self.inbox@.capacity == 100 && !self.inbox@.closed
    }

    /// The records after `error` was reported: it goes to the back, or is
    /// dropped where the sink is full.
    pub open spec fn reported(pending: Seq<ActorError>, error: ActorError) -> Seq<ActorError> {
        if pending.len() < 100 {
            pending.push(error)
        } else {
            pending
        }
    }

    /// An empty sink.
    pub fn new() -> (sink: Self)
        ensures
            sink.wf(),
            sink.pending() == Seq::<ActorError>::empty(),
    {
        ErrorHandler { inbox: Mailbox::new(ERROR_SINK_CAPACITY) }
    }

    /// Reports an error. Says whether the sink took it.
    pub fn report(&mut self, error: ActorError) -> (taken: bool)
        requires
            old(self).wf(),
        ensures
            final(self).wf(),
            taken == (old(self).pending().len() < 100),
            final(self).pending() == Self::reported(old(self).pending(), error),
    {
        match self.inbox.try_send(error) {
            Ok(()) => true,
            Err(_) => false,
        }
    }

    /// Takes every record out of the sink, oldest first.
    pub fn handle_errors(&mut self) -> (records: Vec<ActorError>)
        requires
            old(self).wf(),
        ensures
            final(self).wf(),
            records@ == old(self).pending(),
            final(self).pending() == Seq::<ActorError>::empty(),
    {
        let mut records: Vec<ActorError> = Vec::new();
        loop
            invariant
                self.wf(),
                records@ + self.pending() == old(self).pending(),
            ensures
                self.wf(),
                self.pending().len() == 0,
                records@ + self.pending() == old(self).pending(),
            decreases self.pending().len(),
        {
            let ghost waiting = self.pending();
            let ghost before = records@;
            match self.inbox.try_recv() {
                Delivery::Message(error) => {
                    records.push(error);
                    assert(records@ + self.pending() =~= before + waiting);
                },
                _ => {
                    break ;
                },
            }
        }
        assert(records@ =~= old(self).pending());
        assert(self.pending() =~= Seq::<ActorError>::empty());
        records
    }
}

/// The level at which an error record is logged.
#[derive(Debug, Clone, Copy, PartialEq, Eq, Structural)]
pub enum Severity {
    Info,
    Error,
}

/// The level at which an error record is logged: a closed channel is
/// expected on teardown and is logged at level info, everything else at
/// level error.
pub fn severity(error: &ActorError) -> (level: Severity)
    ensures
        level == if error.kind_of() == ErrorKind::Channel && error.reason()
            == crate::error::channel_closed() {
            Severity::Info
        } else {
            Severity::Error
        },
{
    match error {
        ActorError::ChannelError(message) => {
            if crate::text::same_text(message.as_str(), "Closed") {
                Severity::Info
            } else {
                Severity::Error
            }
        },
        _ => Severity::Error,
    }
}

/// Number of seconds that an actor is given to stop before its task is
/// aborted.
pub const DEFAULT_GRACE_SECS: u64 = 60;

/// What to do with an actor that was told to stop.
#[derive(Debug, Clone, Copy, PartialEq, Eq, Structural)]
pub enum Teardown {
    /// The task has ended.
    Done,
    /// The task still runs and the grace period has not passed.
    Wait,
    /// The grace period has passed: abort the task.
    Abort,
}

/// Decides on an actor that was told to stop `waited` seconds ago.
pub fn after_stop(exited: bool, waited: u64, grace: u64) -> (decision: Teardown)
    ensures
        decision == if exited {
            Teardown::Done
        } else if waited < grace {
            Teardown::Wait
        } else {
            Teardown::Abort
        },
{
    if exited {
        Teardown::Done
    } else if waited < grace {
        Teardown::Wait
    } else {
        Teardown::Abort
    }
}

/// An actor with its mailbox, as the runtime holds it once `start` has
/// returned success. There is no other way to one: an actor whose `start`
/// failed has no mailbox and is never handed a message.
pub struct ActorCell<Mes, S: Server<Mes>> {
    server: S,
    mailbox: Mailbox<Mes>,
    phase: Phase,
    teardowns: usize,
    life: Ghost<Seq<Signal>>,
}

/// What can be seen of an actor from outside.
pub struct CellView<Mes> {
    pub phase: Phase,
    pub mailbox: MailboxView<Mes>,
    /// How often `stop` was called.
    pub teardowns: nat,
    /// What has happened to the actor since it was spawned, oldest first:
    /// one signal for each return of `start`, `process` and `stop`, for
    /// each message handed to `process`, and for the closure of the
    /// mailbox.
    pub life: Seq<Signal>,
}

impl<Mes> CellView<Mes> {
    /// A spawned actor was started with success, and its phase is the one
    /// that its life has led to: it runs, or `process` has asked for the
    /// shutdown and `stop` is to be called, or it is terminated. A
    /// terminated actor has been stopped once; one that is stopping or
    /// terminated has a closed mailbox.
    pub open spec fn wf(self) -> bool {
        &&& self.mailbox.wf()
        &&& self.life.len() >= 2
        &&& self.life[0] == Signal::Spawned
        &&& self.life[1] == Signal::StartSucceeded
        &&& self.phase == phase_after(self.life)
        &&& self.phase == Phase::Running || self.phase == Phase::Stopping || self.phase
            == Phase::Terminated
        &&& self.phase == Phase::Terminated ==> self.mailbox.closed && self.teardowns == 1
        &&& self.phase == Phase::Stopping ==> self.mailbox.closed && self.teardowns == 0
        &&& self.phase == Phase::Running ==> self.teardowns == 0
    }

    /// The actor after a send of `message`.
    pub open spec fn sent(self, message: Mes) -> Self {
        CellView { mailbox: self.mailbox.offer(message), ..self }
    }

    /// The actor after it was told to stop: its mailbox is closed.
    pub open spec fn stop_requested(self) -> Self {
        CellView { mailbox: self.mailbox.close(), ..self }
    }

    /// The running actor after `process` has returned `outcome` for the
    /// message that it was handed: both go into its life. A shutdown
    /// error closes the mailbox and leaves the actor stopping, anything
    /// else leaves it running.
    pub open spec fn processed(self, outcome: ActorResultVoid) -> Self {
        let life = self.life.push(Signal::Received).push(process_signal(outcome));
        if process_signal(outcome) == Signal::ProcessFailed(ErrorKind::Shutdown) {
            CellView { phase: Phase::Stopping, mailbox: self.mailbox.close(), life, ..self }
        } else {
            CellView { life, ..self }
        }
    }

    /// The actor after `stop` has returned `stopped`: it is terminated,
    /// its mailbox is closed, and `stop` counts as called once. For an
    /// actor that was running, the closure of its mailbox goes into its
    /// life before the return of `stop`.
    pub open spec fn stopped(self, stopped: ActorResultVoid) -> Self {
        let life = if self.phase == Phase::Running {
            self.life.push(Signal::Closed)
        } else {
            self.life
        };
        CellView {
            phase: Phase::Terminated,
            mailbox: self.mailbox.close(),
            teardowns: 1,
            life: life.push(stop_signal(stopped)),
        }
    }
}

/// Telling an actor to stop a second time changes nothing, and a message
/// sent after the first time is refused as closed.
pub proof fn lemma_stop_is_idempotent<Mes>(cell: CellView<Mes>, message: Mes)
    requires
        cell.wf(),
    ensures
        cell.stop_requested().wf(),
        cell.stop_requested().stop_requested() == cell.stop_requested(),
        cell.stop_requested().teardowns <= 1,
        cell.stop_requested().mailbox.refusal() == Some(Refusal::Closed),
        cell.stop_requested().sent(message) == cell.stop_requested(),
{
}

/// A terminated actor refuses every send.
pub proof fn lemma_terminated_rejects<Mes>(cell: CellView<Mes>, message: Mes)
    requires
        cell.wf(),
        cell.phase == Phase::Terminated,
    ensures
        !accepts_messages(Phase::Terminated),
        cell.mailbox.refusal() == Some(Refusal::Closed),
        cell.sent(message) == cell,
{
}

/// Whenever a message was handed to the `process` of an actor, its
/// `start` had returned success before, and had not failed: the life of a
/// spawned actor begins with the success of `start`, and an actor whose
/// `start` failed is never spawned.
pub proof fn lemma_process_follows_the_start<Mes>(cell: CellView<Mes>, i: int)
    requires
        cell.wf(),
        0 <= i < cell.life.len(),
        cell.life[i] == Signal::Received || directive_at(cell.life, i) == Directive::Process,
    ensures
        exists|j: int| 0 <= j < i && cell.life[j] == Signal::StartSucceeded,
{
    if directive_at(cell.life, i) == Directive::Process {
        lemma_process_follows_start(cell.life, i);
    } else {
        assert(cell.life[1] == Signal::StartSucceeded);
    }
}

/// The signal for what `process` returned.
pub open spec fn process_signal(outcome: ActorResultVoid) -> Signal {
    match outcome {
        Ok(()) => Signal::Processed,
        Err(e) => Signal::ProcessFailed(e.kind_of()),
    }
}

/// The signal for what `stop` returned.
pub open spec fn stop_signal(stopped: ActorResultVoid) -> Signal {
    match stopped {
        Ok(()) => Signal::Stopped,
        Err(_) => Signal::StopFailed,
    }
}

/// The life of a new actor whose `start` succeeded.
pub open spec fn started_life() -> Seq<Signal> {
    seq![Signal::Spawned, Signal::StartSucceeded]
}

/// One more signal leads to the phase that the machine answers with.
proof fn lemma_life_goes_on(life: Seq<Signal>, signal: Signal)
    ensures
        phase_after(life.push(signal)) == crate::lifecycle::step(phase_after(life), signal).phase,
{
    assert(life.push(signal).drop_last() =~= life);
}

/// What one turn of the runtime did.
#[derive(Debug, Clone, Copy, PartialEq, Eq, Structural)]
pub enum Turn {
    /// The actor is terminated; nothing was done.
    Done,
    /// No message waits and the mailbox is open; nothing was done.
    Idle,
    /// The oldest message was handed to `process`.
    Processed,
    /// The oldest message was handed to `process`, which asked for the
    /// shutdown: `stop` was called and the actor is terminated.
    Aborted,
    /// The mailbox is closed and empty, or the actor was stopping: `stop`
    /// was called and the actor is terminated.
    Stopped,
}

/// Takes what `start` returned for `server`. After a success the actor
/// runs behind an empty mailbox of the default capacity, and nothing goes
/// to the sink. A failed start goes to the sink as a startup error with
/// the message of the error, and is returned as that error; the actor is
/// dropped and never gets a message.
pub fn settle_start<Mes, S: Server<Mes>>(
    server: S,
    started: ActorResultVoid,
    sink: &mut ErrorHandler,
) -> (spawned: Result<ActorCell<Mes, S>, ActorError>)
    requires
        old(sink).wf(),
    ensures
        final(sink).wf(),
        match started {
            Ok(()) => {
                &&& spawned matches Ok(cell)
                &&& cell.wf()
                &&& cell@.phase == Phase::Running
                &&& cell@.teardowns == 0
                &&& cell@.life == started_life()
                &&& cell@.mailbox.pending == Seq::<Mes>::empty()
                &&& cell@.mailbox.capacity == 32
                &&& !cell@.mailbox.closed
                &&& cell.actor() == server
                &&& final(sink).pending() == old(sink).pending()
            },
            Err(e) => {
                &&& spawned matches Err(error)
                &&& error == e.as_startup()
                &&& error.kind_of() == ErrorKind::Startup
                &&& error.reason() == e.reason()
                &&& final(sink).pending() == ErrorHandler::reported(old(sink).pending(), error)
            },
        },
{
    let begin = advance(Phase::Created, Signal::Spawned);
    match started {
        Ok(()) => {
            let running = advance(begin.phase, Signal::StartSucceeded);
            proof {
                lemma_life_goes_on(Seq::empty(), Signal::Spawned);
                lemma_life_goes_on(seq![Signal::Spawned], Signal::StartSucceeded);
                assert(seq![Signal::Spawned].push(Signal::StartSucceeded) =~= started_life());
                assert(Seq::<Signal>::empty().push(Signal::Spawned) =~= seq![Signal::Spawned]);
            }
            Ok(
                ActorCell {
                    server,
                    mailbox: Mailbox::with_default_capacity(),
                    phase: running.phase,
                    teardowns: 0,
                    life: Ghost(started_life()),
                },
            )
        },
        Err(error) => {
            let error = ActorError::StartupError(error.into_message());
            sink.report(error.duplicate());
            Err(error)
        },
    }
}

/// Starts `server` and, where that succeeds, puts it behind a mailbox of
/// the default capacity. A failed start goes to the sink as a startup
/// error and is returned as one; the actor then never runs. What follows
/// from each result of `start` is settled by [`settle_start`].
pub fn spawn_server<Mes, S: Server<Mes>>(server: S, sink: &mut ErrorHandler) -> (spawned: Result<
    ActorCell<Mes, S>,
    ActorError,
>)
    requires
        old(sink).wf(),
    ensures
        final(sink).wf(),
        match spawned {
            Ok(cell) => {
                &&& cell.wf()
                &&& cell@.phase == Phase::Running
                &&& cell@.teardowns == 0
                &&& cell@.life == started_life()
                &&& cell@.mailbox.pending == Seq::<Mes>::empty()
                &&& cell@.mailbox.capacity == 32
                &&& !cell@.mailbox.closed
                &&& final(sink).pending() == old(sink).pending()
            },
            Err(error) => {
                &&& error.kind_of() == ErrorKind::Startup
                &&& final(sink).pending() == ErrorHandler::reported(old(sink).pending(), error)
            },
        },
{
    let mut server = server;
    let started = server.start();
    settle_start(server, started, sink)
}

impl<Mes, S: Server<Mes>> View for ActorCell<Mes, S> {
    type V = CellView<Mes>;

    closed spec fn view(&self) -> CellView<Mes> {
        CellView {
            phase: self.phase,
            mailbox: self.mailbox@,
            teardowns: self.teardowns as nat,
            life: self.life@,
        }
    }
}

impl<Mes, S: Server<Mes>> ActorCell<Mes, S> {
    /// The actor behind the mailbox. Only `process` and `stop` change it.
    pub closed spec fn actor(&self) -> S {
        self.server
    }

    /// See [`CellView::wf`].
    pub open spec fn wf(&self) -> bool {
        self@.wf()
    }

    /// The phase of the actor.
    pub fn phase(&self) -> (phase: Phase)
        ensures
            phase == self@.phase,
    {
        self.phase
    }

    /// Number of messages in flight.
    pub fn in_flight(&self) -> (n: usize)
        ensures
            n == self@.mailbox.pending.len(),
    {
        self.mailbox.len()
    }

    /// How often `stop` was called.
    pub fn teardowns(&self) -> (n: usize)
        ensures
            n == self@.teardowns,
    {
        self.teardowns
    }

    /// Sends a message without waiting. A full mailbox and a stopped actor
    /// refuse it with a channel error.
    pub fn send(&mut self, message: Mes) -> (sent: ActorResultVoid)
        requires
            old(self).wf(),
        ensures
            final(self).wf(),
            final(self)@ == old(self)@.sent(message),
            final(self).actor() == old(self).actor(),
            match sent {
                Ok(()) => old(self)@.mailbox.refusal() is None,
                Err(error) => {
                    &&& error.kind_of() == ErrorKind::Channel
                    &&& old(self)@.mailbox.refusal() == Some(Refusal::Closed) ==> error.reason()
                        == crate::error::channel_closed()
                    &&& old(self)@.mailbox.refusal() == Some(Refusal::Full) ==> error.reason()
                        == crate::error::channel_full()
                    &&& old(self)@.mailbox.refusal() is Some
                },
            },
    {
        match self.mailbox.try_send(message) {
            Ok(()) => Ok(()),
            Err(TrySendError::Closed(_)) => Err(ActorError::closed()),
            Err(TrySendError::Full(_)) => Err(ActorError::full()),
        }
    }

    /// Takes a service message. `Start` does nothing, for the actor is
    /// started already. `Stop` closes the mailbox: what is in flight is
    /// still processed, later sends are refused, and the actor stops when
    /// the mailbox has run empty. Neither fails, however often it is sent.
    pub fn control(&mut self, message: ActorServiceMessage) -> (done: ActorResultVoid)
        requires
            old(self).wf(),
        ensures
            final(self).wf(),
            done is Ok,
            message == ActorServiceMessage::Start ==> final(self)@ == old(self)@,
            message == ActorServiceMessage::Stop ==> final(self)@ == old(self)@.stop_requested(),
            final(self).actor() == old(self).actor(),
    {
        match message {
            ActorServiceMessage::Start => {},
            ActorServiceMessage::Stop => {
                self.mailbox.close();
            },
        }
        Ok(())
    }

    /// Takes what `process` returned for the message that the actor has
    /// just been handed, and says what the loop does next. After a
    /// success nothing goes to the sink and the loop receives again. An
    /// error goes to the sink, a startup error as a runtime error; the
    /// loop then receives again too, unless the error is a shutdown
    /// error: that closes the mailbox, leaves the actor stopping and asks
    /// for `stop`.
    pub fn settle_process(&mut self, outcome: ActorResultVoid, sink: &mut ErrorHandler) -> (next:
        Directive)
        requires
            old(self).wf(),
            old(self)@.phase == Phase::Running,
            old(sink).wf(),
        ensures
            final(self).wf(),
            final(sink).wf(),
            final(self)@ == old(self)@.processed(outcome),
            final(self).actor() == old(self).actor(),
            match outcome {
                Ok(()) => {
                    &&& next == Directive::Receive
                    &&& final(sink).pending() == old(sink).pending()
                },
                Err(e) => {
                    &&& next == if e.kind_of() == ErrorKind::Shutdown {
                        Directive::Stop
                    } else {
                        Directive::Receive
                    }
                    &&& final(sink).pending() == ErrorHandler::reported(
                        old(sink).pending(),
                        e.as_running(),
                    )
                },
            },
    {
        let arrived = advance(self.phase, Signal::Received);
        let answer = match outcome {
            Ok(()) => advance(arrived.phase, Signal::Processed),
            Err(error) => {
                let answer = advance(arrived.phase, Signal::ProcessFailed(error.kind()));
                sink.report(error.while_running());
                answer
            },
        };
        proof {
            lemma_life_goes_on(self.life@, Signal::Received);
            lemma_life_goes_on(self.life@.push(Signal::Received), process_signal(outcome));
        }
        self.life = Ghost(self.life@.push(Signal::Received).push(process_signal(outcome)));
        self.phase = answer.phase;
        match answer.next {
            Directive::Stop => {
                self.mailbox.close();
            },
            _ => {},
        }
        answer.next
    }

    /// Takes what `stop` returned and ends the actor: it is terminated,
    /// its mailbox is closed with what it still holds, and `stop` counts
    /// as called once. An error goes to the sink as a shutdown error with
    /// the message of the error; after a success nothing goes there.
    pub fn settle_stop(&mut self, stopped: ActorResultVoid, sink: &mut ErrorHandler)
        requires
            old(self).wf(),
            old(self)@.phase == Phase::Running || old(self)@.phase == Phase::Stopping,
            old(sink).wf(),
        ensures
            final(self).wf(),
            final(sink).wf(),
            final(self)@ == old(self)@.stopped(stopped),
            final(self).actor() == old(self).actor(),
            final(sink).pending() == match stopped {
                Ok(()) => old(sink).pending(),
                Err(e) => ErrorHandler::reported(old(sink).pending(), e.as_shutdown()),
            },
    {
        let stopping = match self.phase {
            Phase::Running => {
                proof {
                    lemma_life_goes_on(self.life@, Signal::Closed);
                }
                self.life = Ghost(self.life@.push(Signal::Closed));
                advance(self.phase, Signal::Closed).phase
            },
            phase => phase,
        };
        proof {
            lemma_life_goes_on(self.life@, stop_signal(stopped));
        }
        self.life = Ghost(self.life@.push(stop_signal(stopped)));
        self.teardowns = 1;
        self.mailbox.close();
        let answer = match stopped {
            Ok(()) => advance(stopping, Signal::Stopped),
            Err(error) => {
                sink.report(ActorError::ShutdownError(error.into_message()));
                advance(stopping, Signal::StopFailed)
            },
        };
        self.phase = answer.phase;
    }

    /// One turn of the message loop: the oldest message goes to `process`,
    /// or, where the mailbox is closed and empty, the actor is stopped.
    ///
    /// What follows from the result of `process` is settled by
    /// [`ActorCell::settle_process`], and what follows from the result of
    /// `stop` by [`ActorCell::settle_stop`]: an error from `process` goes
    /// to the sink, a startup error as a runtime error, and the actor
    /// goes on; a shutdown error ends it.
    pub fn turn(&mut self, sink: &mut ErrorHandler) -> (turn: Turn)
        requires
            old(self).wf(),
            old(sink).wf(),
        ensures
            final(self).wf(),
            final(sink).wf(),
            old(sink).pending().is_prefix_of(final(sink).pending()),
            final(sink).pending().len() <= old(sink).pending().len() + 2,
            forall|i: int|
                old(sink).pending().len() <= i < final(sink).pending().len() ==> (
                #[trigger] final(sink).pending()[i]).kind_of() != ErrorKind::Startup,
            match turn {
                Turn::Done => {
                    &&& old(self)@.phase == Phase::Terminated
                    &&& final(self)@ == old(self)@
                    &&& final(self).actor() == old(self).actor()
                    &&& final(sink).pending() == old(sink).pending()
                },
                Turn::Idle => {
                    &&& old(self)@.phase == Phase::Running
                    &&& old(self)@.mailbox.pending.len() == 0
                    &&& !old(self)@.mailbox.closed
                    &&& final(self)@ == old(self)@
                    &&& final(self).actor() == old(self).actor()
                    &&& final(sink).pending() == old(sink).pending()
                },
                Turn::Processed => {
                    &&& old(self)@.phase == Phase::Running
                    &&& old(self)@.mailbox.pending.len() > 0
                    &&& final(self)@ == (CellView {
                        mailbox: old(self)@.mailbox.take(),
                        life: old(self)@.life.push(Signal::Received).push(final(self)@.life.last()),
                        ..old(self)@
                    })
                    &&& final(self)@.life.last() != Signal::ProcessFailed(ErrorKind::Shutdown)
                    &&& final(self)@.life.last() is Processed || final(self)@.life.last()
                        is ProcessFailed
                    &&& final(sink).pending().len() <= old(sink).pending().len() + 1
                    &&& final(self)@.life.last() is Processed ==> final(sink).pending() == old(
                        sink,
                    ).pending()
                    &&& final(self)@.life.last() matches Signal::ProcessFailed(kind) ==> exists|
                        e: ActorError,
                    |
                        e.kind_of() == kind && final(sink).pending() == #[trigger] ErrorHandler::reported(
                            old(sink).pending(),
                            e.as_running(),
                        )
                    &&& forall|i: int|
                        old(sink).pending().len() <= i < final(sink).pending().len() ==> (
                        #[trigger] final(sink).pending()[i]).kind_of() != ErrorKind::Shutdown
                },
                Turn::Aborted => {
                    &&& old(self)@.phase == Phase::Running
                    &&& old(self)@.mailbox.pending.len() > 0
                    &&& final(self)@.phase == Phase::Terminated
                    &&& final(self)@.mailbox == old(self)@.mailbox.take().close()
                    &&& final(self)@.life == old(self)@.life.push(Signal::Received).push(
                        Signal::ProcessFailed(ErrorKind::Shutdown),
                    ).push(final(self)@.life.last())
                    &&& final(self)@.life.last() == Signal::Stopped || final(self)@.life.last()
                        == Signal::StopFailed
                    &&& exists|e: ActorError|
                        e.kind_of() == ErrorKind::Shutdown && (#[trigger] ErrorHandler::reported(
                            old(sink).pending(),
                            e.as_running(),
                        )).is_prefix_of(final(sink).pending())
                    &&& forall|i: int|
                        old(sink).pending().len() <= i < final(sink).pending().len() ==> (
                        #[trigger] final(sink).pending()[i]).kind_of() == ErrorKind::Shutdown
                },
                Turn::Stopped => {
                    &&& old(self)@.phase == Phase::Stopping || (old(self)@.phase == Phase::Running
                        && old(self)@.mailbox.pending.len() == 0 && old(self)@.mailbox.closed)
                    &&& final(self)@.phase == Phase::Terminated
                    &&& final(self)@.mailbox == old(self)@.mailbox
                    &&& final(self)@.life == (if old(self)@.phase == Phase::Running {
                        old(self)@.life.push(Signal::Closed)
                    } else {
                        old(self)@.life
                    }).push(final(self)@.life.last())
                    &&& final(self)@.life.last() == Signal::Stopped || final(self)@.life.last()
                        == Signal::StopFailed
                    &&& final(sink).pending().len() <= old(sink).pending().len() + 1
                    &&& forall|i: int|
                        old(sink).pending().len() <= i < final(sink).pending().len() ==> (
                        #[trigger] final(sink).pending()[i]).kind_of() == ErrorKind::Shutdown
                },
            },
    {
        match self.phase {
            Phase::Running => {},
            Phase::Stopping => {
                let stopped = self.server.stop();
                self.settle_stop(stopped, sink);
                assert(self@.mailbox =~= old(self)@.mailbox);
                return Turn::Stopped;
            },
            _ => {
                return Turn::Done;
            },
        }
        match self.mailbox.try_recv() {
            Delivery::Message(message) => {
                let outcome = self.server.process(message);
                let ghost returned = outcome;
                let next = self.settle_process(outcome, sink);
                let ghost first = sink.pending();
                proof {
                    match returned {
                        Ok(()) => {},
                        Err(e) => {
                            assert(first == ErrorHandler::reported(
                                old(sink).pending(),
                                e.as_running(),
                            ));
                        },
                    }
                }
                match next {
                    Directive::Stop => {
                        let stopped = self.server.stop();
                        self.settle_stop(stopped, sink);
                        proof {
                            assert(first.is_prefix_of(sink.pending()));
                            assert forall|i: int|
                                old(sink).pending().len() <= i < sink.pending().len() implies (
                            #[trigger] sink.pending()[i]).kind_of() == ErrorKind::Shutdown by {
                                if i < first.len() {
                                    assert(sink.pending()[i] == first[i]);
                                }
                            }
                        }
                        Turn::Aborted
                    },
                    _ => Turn::Processed,
                }
            },
            Delivery::Empty => Turn::Idle,
            Delivery::Closed => {
                let stopped = self.server.stop();
                self.settle_stop(stopped, sink);
                assert(self@.mailbox =~= old(self)@.mailbox);
                Turn::Stopped
            },
        }
    }

    /// Runs the message loop until the mailbox is empty or the actor is
    /// terminated, and says how many messages went to `process`.
    ///
    /// Messages are taken from the front of the mailbox in the order in
    /// which they were sent, none is skipped: what is left in the mailbox
    /// is what was there without the messages that were processed. A
    /// running actor with a message in its mailbox processes one at least.
    /// The loop ends a running actor only where its mailbox was closed, or
    /// where a message asked for the shutdown; an actor whose mailbox was
    /// closed ends terminated. A terminated actor is left as it is.
    pub fn run(&mut self, sink: &mut ErrorHandler) -> (processed: usize)
        requires
            old(self).wf(),
            old(sink).wf(),
        ensures
            final(self).wf(),
            final(sink).wf(),
            processed <= old(self)@.mailbox.pending.len(),
            final(self)@.mailbox.pending == old(self)@.mailbox.pending.skip(processed as int),
            final(self)@.mailbox.capacity == old(self)@.mailbox.capacity,
            final(self)@.mailbox.handles == old(self)@.mailbox.handles,
            final(self)@.mailbox.closed == (old(self)@.mailbox.closed || final(self)@.phase
                == Phase::Terminated),
            old(sink).pending().is_prefix_of(final(sink).pending()),
            old(self)@.life.is_prefix_of(final(self)@.life),
            old(self)@.phase == Phase::Terminated ==> processed == 0 && final(self)@ == old(self)@
                && final(sink).pending() == old(sink).pending(),
            old(self)@.phase == Phase::Running && old(self)@.mailbox.pending.len() > 0
                ==> processed >= 1,
            !old(self)@.mailbox.closed && final(self)@.phase == Phase::Terminated ==> processed
                >= 1,
            final(self)@.phase == Phase::Running ==> {
                &&& processed == old(self)@.mailbox.pending.len()
                &&& final(self)@.mailbox.pending.len() == 0
                &&& !final(self)@.mailbox.closed
                &&& !old(self)@.mailbox.closed
            },
            old(self)@.mailbox.closed ==> final(self)@.phase == Phase::Terminated,
            final(self)@.teardowns <= 1,
            final(self).actor() == old(self).actor() || processed > 0 || final(self)@.teardowns
                > old(self)@.teardowns,
    {
        let total = self.mailbox.len();
        let mut processed: usize = 0;
        proof {
            assert(self@.mailbox.pending.skip(0) =~= self@.mailbox.pending);
        }
        loop
            invariant_except_break
                old(self)@.phase == Phase::Terminated ==> processed == 0,
                self@.phase == old(self)@.phase,
                self@.teardowns == old(self)@.teardowns,
                self@.mailbox == (MailboxView {
                    pending: old(self)@.mailbox.pending.skip(processed as int),
                    ..old(self)@.mailbox
                }),
                old(self)@.phase == Phase::Running && old(self)@.mailbox.pending.len() > 0
                    && self@.mailbox.pending.len() < old(self)@.mailbox.pending.len()
                    ==> processed >= 1,
                processed == 0 ==> self@ == old(self)@ && sink.pending() == old(sink).pending()
                    && self.actor() == old(self).actor(),
            invariant
                self.wf(),
                sink.wf(),
                old(self).wf(),
                total == old(self)@.mailbox.pending.len(),
                processed <= old(self)@.mailbox.pending.len(),
                old(sink).pending().is_prefix_of(sink.pending()),
                old(self)@.life.is_prefix_of(self@.life),
            ensures
                self.wf(),
                sink.wf(),
                processed <= old(self)@.mailbox.pending.len(),
                self@.mailbox.pending == old(self)@.mailbox.pending.skip(processed as int),
                self@.mailbox.capacity == old(self)@.mailbox.capacity,
                self@.mailbox.handles == old(self)@.mailbox.handles,
                self@.mailbox.closed == (old(self)@.mailbox.closed || self@.phase
                    == Phase::Terminated),
                old(sink).pending().is_prefix_of(sink.pending()),
                old(self)@.life.is_prefix_of(self@.life),
                old(self)@.phase == Phase::Terminated ==> processed == 0 && self@ == old(self)@
                    && sink.pending() == old(sink).pending(),
                old(self)@.phase == Phase::Running && old(self)@.mailbox.pending.len() > 0
                    ==> processed >= 1,
                !old(self)@.mailbox.closed && self@.phase == Phase::Terminated ==> processed >= 1,
                self@.phase == Phase::Running ==> {
                    &&& processed == old(self)@.mailbox.pending.len()
                    &&& self@.mailbox.pending.len() == 0
                    &&& !self@.mailbox.closed
                    &&& !old(self)@.mailbox.closed
                },
                old(self)@.mailbox.closed ==> self@.phase == Phase::Terminated,
                self.actor() == old(self).actor() || processed > 0 || self@.teardowns > old(
                    self,
                )@.teardowns,
            decreases
                    (if self@.phase == Phase::Running { 1nat } else { 0nat }),
                    self@.mailbox.pending.len(),
        {
            let ghost before = self@;
            let ghost left = old(self)@.mailbox.pending.skip(processed as int);
            let turn = self.turn(sink);
            proof {
                if left.len() > 0 {
                    assert(left.drop_first() =~= old(self)@.mailbox.pending.skip(processed + 1));
                }
            }
            match turn {
                Turn::Processed => {
                    processed += 1;
                },
                Turn::Aborted => {
                    processed += 1;
                    break ;
                },
                _ => {
                    break ;
                },
            }
        }
        processed
    }
}

/// An actor that takes every message and keeps nothing.
#[derive(Debug, Clone, Copy, PartialEq, Eq, Structural, Default)]
pub struct EchoActor;

impl EchoActor {
    /// The line that the actor writes for a message.
    pub fn echo(message: &str) -> (line: String)
        ensures
            line@ == "[Echo] "@ + message@,
    {
        crate::text::concat2("[Echo] ", message)
    }
}

impl Server<String> for EchoActor {
    fn start(&mut self) -> (done: ActorResultVoid)
        ensures
            done is Ok,
    {
        Ok(())
    }

    fn stop(&mut self) -> (done: ActorResultVoid)
        ensures
            done is Ok,
    {
        Ok(())
    }

    fn process(&mut self, message: String) -> (done: ActorResultVoid)
        ensures
            done is Ok,
    {
        Ok(())
    }
}

} // verus!
