//! The connection of an AMQP topic listener as a state machine.
//!
//! The listener connects, attaches its link and receives; it settles each
//! delivery before it forwards it; after a failure it waits and connects
//! again; and once it was told to shut down it finishes the delivery at
//! hand, closes and ends.

use vstd::prelude::*;

verus! {

/// Seconds to wait before the listener connects again.
pub const RETRY_DELAY_SECS: u64 = 5;

/// The name of the listener's link.
pub open spec fn listener_link_name() -> Seq<char> {
    "listener-link"@
}

/// Where a listener is.
#[derive(Debug, Clone, Copy, PartialEq, Eq, Structural)]
pub enum LinkPhase {
    Disconnected,
    /// The attempt with this number is under way.
    Connecting(u32),
    /// The attempt with this number has failed; the next one is due after
    /// the delay.
    Waiting(u32),
    /// The link is attached and no delivery is at hand.
    Connected,
    /// A delivery is at hand and the broker has not yet confirmed its
    /// settlement.
    Settling,
    Terminated,
}

/// The state of a listener: its phase, and whether it was told to shut
/// down.
#[derive(Debug, Clone, Copy, PartialEq, Eq, Structural)]
pub struct LinkState {
    pub phase: LinkPhase,
    pub shutdown: bool,
}

/// What happened to a listener.
#[derive(Debug, Clone, Copy, PartialEq, Eq, Structural)]
pub enum LinkEvent {
    /// The listener was started.
    Begin,
    /// Connection, session and link are up.
    Attached,
    /// The connection, the session or the link could not be opened.
    AttachFailed,
    /// The delay before the next attempt is over.
    DelayElapsed,
    /// A delivery arrived.
    Delivered,
    /// The broker took the disposition that accepts the delivery at hand.
    Settled,
    /// The disposition could not be sent.
    SettleFailed,
    /// The link failed while the listener waited for a delivery.
    ReceiveFailed,
    /// The shutdown token fired.
    Shutdown,
}

/// What the driver of a listener does next.
#[derive(Debug, Clone, Copy, PartialEq, Eq, Structural)]
pub enum LinkAction {
    /// Nothing new.
    Nothing,
    /// Open the connection, begin the session and attach the link.
    Connect,
    /// Wait for the delay.
    Wait,
    /// Wait for the next delivery.
    Receive,
    /// Accept the delivery at hand.
    Accept,
    /// Leave; the listener has ended.
    Exit,
}

/// The answer of the machine to one event.
#[derive(Debug, Clone, Copy, PartialEq, Eq, Structural)]
pub struct LinkStep {
    pub state: LinkState,
    /// Whether the delivery at hand goes to the subscribers now.
    pub forward: bool,
    /// Whether link, session and connection are closed now.
    pub close: bool,
    pub next: LinkAction,
}

/// The number of the attempt that follows attempt `n`.
pub open spec fn next_attempt(n: u32) -> u32 {
    if n == u32::MAX {
        n
    } else {
        (n + 1) as u32
    }
}

/// A listener that has not been started.
pub open spec fn initial_link() -> LinkState {
    LinkState { phase: LinkPhase::Disconnected, shutdown: false }
}

/// The end of a listener, with or without something to close.
pub open spec fn ended(close: bool, forward: bool) -> LinkStep {
    LinkStep {
        state: LinkState { phase: LinkPhase::Terminated, shutdown: true },
        forward,
        close,
        next: LinkAction::Exit,
    }
}

/// The answer of the machine in `state` to `event`.
///
/// A delivery is forwarded only on the event that confirms its
/// settlement. A failure leads to the wait and a new attempt. The
/// shutdown ends a listener at once where nothing is under way; an attempt
/// or a delivery that is under way is finished first.
pub open spec fn link_step(state: LinkState, event: LinkEvent) -> LinkStep {
    let stay = LinkStep { state, forward: false, close: false, next: LinkAction::Nothing };
    match (state.phase, event) {
        (LinkPhase::Terminated, _) => stay,
        (LinkPhase::Disconnected, LinkEvent::Begin) => LinkStep {
            state: LinkState { phase: LinkPhase::Connecting(1), ..state },
            forward: false,
            close: false,
            next: LinkAction::Connect,
        },
        (LinkPhase::Connecting(n), LinkEvent::Attached) => if state.shutdown {
            ended(true, false)
        } else {
            LinkStep {
                state: LinkState { phase: LinkPhase::Connected, ..state },
                forward: false,
                close: false,
                next: LinkAction::Receive,
            }
        },
        (LinkPhase::Connecting(n), LinkEvent::AttachFailed) => if state.shutdown {
            ended(false, false)
        } else {
            LinkStep {
                state: LinkState { phase: LinkPhase::Waiting(n), ..state },
                forward: false,
                close: false,
                next: LinkAction::Wait,
            }
        },
        (LinkPhase::Waiting(n), LinkEvent::DelayElapsed) => LinkStep {
            state: LinkState { phase: LinkPhase::Connecting(next_attempt(n)), ..state },
            forward: false,
            close: false,
            next: LinkAction::Connect,
        },
        (LinkPhase::Connected, LinkEvent::Delivered) => LinkStep {
            state: LinkState { phase: LinkPhase::Settling, ..state },
            forward: false,
            close: false,
            next: LinkAction::Accept,
        },
        (LinkPhase::Connected, LinkEvent::ReceiveFailed) => LinkStep {
            state: LinkState { phase: LinkPhase::Waiting(0), ..state },
            forward: false,
            close: true,
            next: LinkAction::Wait,
        },
        (LinkPhase::Settling, LinkEvent::Settled) => if state.shutdown {
            ended(true, true)
        } else {
            LinkStep {
                state: LinkState { phase: LinkPhase::Connected, ..state },
                forward: true,
                close: false,
                next: LinkAction::Receive,
            }
        },
        (LinkPhase::Settling, LinkEvent::SettleFailed) => if state.shutdown {
            ended(true, false)
        } else {
            LinkStep {
                state: LinkState { phase: LinkPhase::Waiting(0), ..state },
                forward: false,
                close: true,
                next: LinkAction::Wait,
            }
        },
        (LinkPhase::Disconnected, LinkEvent::Shutdown) => ended(false, false),
        (LinkPhase::Waiting(_), LinkEvent::Shutdown) => ended(false, false),
        (LinkPhase::Connected, LinkEvent::Shutdown) => ended(true, false),
        (LinkPhase::Connecting(_), LinkEvent::Shutdown) => LinkStep {
            state: LinkState { shutdown: true, ..state },
            ..stay
        },
        (LinkPhase::Settling, LinkEvent::Shutdown) => LinkStep {
            state: LinkState { shutdown: true, ..state },
            ..stay
        },
        _ => stay,
    }
}

/// The end of a listener, with or without something to close.
fn end_link(close: bool, forward: bool) -> (step: LinkStep)
    ensures
        step == ended(close, forward),
{
    LinkStep {
        state: LinkState { phase: LinkPhase::Terminated, shutdown: true },
        forward,
        close,
        next: LinkAction::Exit,
    }
}

/// A step that changes the phase and closes or forwards nothing.
fn move_to(state: LinkState, phase: LinkPhase, next: LinkAction) -> (step: LinkStep)
    ensures
        step == (LinkStep {
            state: LinkState { phase, ..state },
            forward: false,
            close: false,
            next,
        }),
{
    LinkStep {
        state: LinkState { phase, shutdown: state.shutdown },
        forward: false,
        close: false,
        next,
    }
}

/// The answer of the machine in `state` to `event`.
pub fn advance_link(state: LinkState, event: LinkEvent) -> (step: LinkStep)
    ensures
        step == link_step(state, event),
{
    let stay = LinkStep { state, forward: false, close: false, next: LinkAction::Nothing };
    match (state.phase, event) {
        (LinkPhase::Terminated, _) => stay,
        (LinkPhase::Disconnected, LinkEvent::Begin) => move_to(
            state,
            LinkPhase::Connecting(1),
            LinkAction::Connect,
        ),
        (LinkPhase::Connecting(n), LinkEvent::Attached) => {
            if state.shutdown {
                end_link(true, false)
            } else {
                move_to(state, LinkPhase::Connected, LinkAction::Receive)
            }
        },
        (LinkPhase::Connecting(n), LinkEvent::AttachFailed) => {
            if state.shutdown {
                end_link(false, false)
            } else {
                move_to(state, LinkPhase::Waiting(n), LinkAction::Wait)
            }
        },
        (LinkPhase::Waiting(n), LinkEvent::DelayElapsed) => {
            let attempt: u32 = if n == u32::MAX {
                n
            } else {
                n + 1
            };
            move_to(state, LinkPhase::Connecting(attempt), LinkAction::Connect)
        },
        (LinkPhase::Connected, LinkEvent::Delivered) => move_to(
            state,
            LinkPhase::Settling,
            LinkAction::Accept,
        ),
        (LinkPhase::Connected, LinkEvent::ReceiveFailed) => LinkStep {
            state: LinkState { phase: LinkPhase::Waiting(0), shutdown: state.shutdown },
            forward: false,
            close: true,
            next: LinkAction::Wait,
        },
        (LinkPhase::Settling, LinkEvent::Settled) => {
            if state.shutdown {
                end_link(true, true)
            } else {
                LinkStep {
                    state: LinkState { phase: LinkPhase::Connected, shutdown: state.shutdown },
                    forward: true,
                    close: false,
                    next: LinkAction::Receive,
                }
            }
        },
        (LinkPhase::Settling, LinkEvent::SettleFailed) => {
            if state.shutdown {
                end_link(true, false)
            } else {
                LinkStep {
                    state: LinkState { phase: LinkPhase::Waiting(0), shutdown: state.shutdown },
                    forward: false,
                    close: true,
                    next: LinkAction::Wait,
                }
            }
        },
        (LinkPhase::Disconnected, LinkEvent::Shutdown) => end_link(false, false),
        (LinkPhase::Waiting(_), LinkEvent::Shutdown) => end_link(false, false),
        (LinkPhase::Connected, LinkEvent::Shutdown) => end_link(true, false),
        (LinkPhase::Connecting(_), LinkEvent::Shutdown) => LinkStep {
            state: LinkState { phase: state.phase, shutdown: true },
            forward: false,
            close: false,
            next: LinkAction::Nothing,
        },
        (LinkPhase::Settling, LinkEvent::Shutdown) => LinkStep {
            state: LinkState { phase: state.phase, shutdown: true },
            forward: false,
            close: false,
            next: LinkAction::Nothing,
        },
        _ => stay,
    }
}

/// The state that a new listener reaches by `events`, in order.
pub open spec fn link_after(events: Seq<LinkEvent>) -> LinkState
    decreases events.len(),
{
    if events.len() == 0 {
        initial_link()
    } else {
        link_step(link_after(events.drop_last()), events.last()).state
    }
}

/// The answer of the machine to event `i` of the life `events`.
pub open spec fn link_step_at(events: Seq<LinkEvent>, i: int) -> LinkStep {
    link_step(link_after(events.take(i)), events[i])
}

/// A delivery goes to the subscribers only on the event that confirms its
/// settlement, and only while it is at hand.
pub proof fn lemma_forward_is_settled(events: Seq<LinkEvent>, i: int)
    requires
        0 <= i < events.len(),
        link_step_at(events, i).forward,
    ensures
        events[i] == LinkEvent::Settled,
        link_after(events.take(i)).phase == LinkPhase::Settling,
{
}

/// A listener that waits for a settlement has a delivery at hand: the
/// last event that changed its phase was the arrival of one.
proof fn lemma_settling_has_delivery(events: Seq<LinkEvent>)
    requires
        link_after(events).phase == LinkPhase::Settling,
    ensures
        exists|j: int|
            0 <= j < events.len() && events[j] == LinkEvent::Delivered && forall|k: int|
                j < k < events.len() ==> !(#[trigger] link_step_at(events, k)).forward,
    decreases events.len(),
{
    if events.len() > 0 {
        let before = events.drop_last();
        let last = events.len() - 1;
        assert(events.take(last) =~= before);
        if link_after(before).phase == LinkPhase::Settling {
            lemma_settling_has_delivery(before);
            let j = choose|j: int|
                0 <= j < before.len() && before[j] == LinkEvent::Delivered && forall|k: int|
                    j < k < before.len() ==> !(#[trigger] link_step_at(before, k)).forward;
            assert(events[j] == LinkEvent::Delivered);
            assert forall|k: int| j < k < events.len() implies !(#[trigger] link_step_at(
                events,
                k,
            )).forward by {
                if k < last {
                    assert(events.take(k) =~= before.take(k));
                    assert(link_step_at(before, k) == link_step_at(events, k));
                }
            }
        } else {
            assert(events[last] == LinkEvent::Delivered);
        }
    }
}

/// No delivery is forwarded twice: between two forwards a new delivery
/// has arrived.
pub proof fn lemma_forward_once(events: Seq<LinkEvent>, i: int, k: int)
    requires
        0 <= i < k < events.len(),
        link_step_at(events, i).forward,
        link_step_at(events, k).forward,
    ensures
        exists|j: int| i < j < k && events[j] == LinkEvent::Delivered,
{
    let before = events.take(k);
    lemma_settling_has_delivery(before);
    let j = choose|j: int|
        0 <= j < before.len() && before[j] == LinkEvent::Delivered && forall|m: int|
            j < m < before.len() ==> !(#[trigger] link_step_at(before, m)).forward;
    assert(events[j] == LinkEvent::Delivered);
    assert(before.take(i) =~= events.take(i));
    assert(link_step_at(before, i) == link_step_at(events, i));
    if j < i {
        assert(!link_step_at(before, i).forward);
    }
    assert(j != i);
}

/// Every delivery that is forwarded was delivered before and has not been
/// forwarded since.
pub proof fn lemma_forward_follows_delivery(events: Seq<LinkEvent>, i: int)
    requires
        0 <= i < events.len(),
        link_step_at(events, i).forward,
    ensures
        exists|j: int| 0 <= j < i && events[j] == LinkEvent::Delivered,
{
    let before = events.take(i);
    lemma_settling_has_delivery(before);
    let j = choose|j: int|
        0 <= j < before.len() && before[j] == LinkEvent::Delivered && forall|m: int|
            j < m < before.len() ==> !(#[trigger] link_step_at(before, m)).forward;
    assert(events[j] == LinkEvent::Delivered);
}

/// Whether a listener that knows of the shutdown is only finishing what
/// was under way: an attempt to connect, or a delivery.
pub open spec fn winding_down(state: LinkState) -> bool {
    ||| state.phase == LinkPhase::Terminated
    ||| state.shutdown && (state.phase is Connecting || state.phase == LinkPhase::Settling)
}

/// Once the token fired, the listener is winding down in every later
/// state.
pub proof fn lemma_shutdown_is_kept(events: Seq<LinkEvent>, s: int)
    requires
        0 <= s < events.len(),
        events[s] == LinkEvent::Shutdown,
    ensures
        winding_down(link_after(events)),
    decreases events.len() - s,
{
    let last = events.len() - 1;
    let before = events.drop_last();
    if s < last {
        assert(before[s] == LinkEvent::Shutdown);
        lemma_shutdown_is_kept(before, s);
    }
}

/// Once the token fired, the listener neither connects again nor waits
/// for another delivery.
pub proof fn lemma_no_connect_after_shutdown(events: Seq<LinkEvent>, s: int, i: int)
    requires
        0 <= s < i < events.len(),
        events[s] == LinkEvent::Shutdown,
    ensures
        link_step_at(events, i).next != LinkAction::Connect,
        link_step_at(events, i).next != LinkAction::Receive,
        link_step_at(events, i).next != LinkAction::Wait,
{
    let before = events.take(i);
    assert(before[s] == LinkEvent::Shutdown);
    lemma_shutdown_is_kept(before, s);
}

/// The shutdown waits for the delivery at hand: a listener that has a
/// delivery at hand ends only on the event that tells how its settlement
/// went, and it forwards the delivery before it ends where the broker has
/// taken the disposition.
pub proof fn lemma_exit_waits_for_settlement(events: Seq<LinkEvent>, i: int)
    requires
        0 <= i < events.len(),
        link_after(events.take(i)).phase == LinkPhase::Settling,
        link_step_at(events, i).next == LinkAction::Exit,
    ensures
        events[i] == LinkEvent::Settled || events[i] == LinkEvent::SettleFailed,
        events[i] == LinkEvent::Settled ==> link_step_at(events, i).forward,
        link_step_at(events, i).close,
{
}

} // verus!
