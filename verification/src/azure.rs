//! The AMQP topic listener and sender, and the client of the service-bus
//! emulator.
//!
//! The listener and the sender hold what they need to connect, and decide
//! what is done with each delivery and each message; the client builds the
//! commands by which messages are sent through a helper script.

use crate::error::{ActorError, ActorResultVoid, KernelError, Res, ServerError, VoidRes};
use crate::link::{
    advance_link, initial_link, link_step, LinkAction, LinkEvent, LinkPhase, LinkState, LinkStep,
};
use crate::mailbox::{Delivery, Mailbox, MailboxView};
use crate::outside::{
    base64_fits, base64_standard, base64_text, utf8_fault, utf8_fault_text, utf8_lossy,
};
use crate::process::CommandSpec;
use crate::runtime::ActorServiceMessage;
use crate::subscription::{all_wf, delivered_to, mailbox_views, open_ones, publish};
use crate::text::{concat2, concat3, decimal, decimal_digits, pair, pairs_view, views};
use std::collections::VecDeque;
use vstd::prelude::*;

verus! {

/// The messages of the client of the service bus.
#[derive(Debug)]
pub enum AzureMessage {
    Start,
    Stop,
    SendMessage(Vec<u8>),
}

/// The message that asks a sender to send a payload.
#[derive(Debug)]
pub struct SendMessage<AzureM>(pub AzureM);

/// What a user does with a message that came from the service bus.
pub trait ServiceBusMsgHandler {
    fn process(&mut self, message: &str) -> VoidRes;
}

/// A handler that takes every message and does nothing with it.
#[derive(Debug, Clone, Copy, PartialEq, Eq, Structural, Default)]
pub struct EchoServiceBusMsgHandler;

impl ServiceBusMsgHandler for EchoServiceBusMsgHandler {
    fn process(&mut self, message: &str) -> (done: VoidRes)
        ensures
            done is Ok,
    {
        Ok(())
    }
}

/// The status of the answer to a message that the emulator called back
/// with, given what the handler made of it: 200 where it took the
/// message, 500 where it failed.
pub fn status_for(outcome: &VoidRes) -> (status: u16)
    ensures
        status == if outcome is Ok {
            200u16
        } else {
            500u16
        },
{
    match outcome {
        Ok(()) => 200,
        Err(_) => 500,
    }
}

/// Hands the body of a callback to the handler, read as text by lossy
/// UTF-8 decoding, and answers with the status for what the handler
/// returns.
pub fn callback_status<H: ServiceBusMsgHandler>(handler: &mut H, body: &[u8]) -> (status: u16)
    ensures
        status == 200 || status == 500,
{
    let text = utf8_lossy(body);
    let outcome = handler.process(text.as_str());
    status_for(&outcome)
}

/// The address of a subscription on the broker.
pub open spec fn subscription_address(topic: Seq<char>, subscription: Seq<char>) -> Seq<char> {
    topic + "/Subscriptions/"@ + subscription
}

/// The name of the link of the sender with the key `key`.
pub open spec fn sender_link_name(key: Seq<char>) -> Seq<char> {
    key + "-sender-link"@
}

/// The id of a listener or client: topic, a hyphen and subscription.
pub open spec fn endpoint_id(topic: Seq<char>, subscription: Seq<char>) -> Seq<char> {
    topic + "-"@ + subscription
}

/// The AMQP topic listener.
pub struct AzureTopicListener<ActorMes> {
    key: String,
    url: String,
    topic: String,
    subscription: String,
    processors: Vec<Mailbox<ActorMes>>,
    state: LinkState,
    at_hand: Option<ActorMes>,
}

/// A listener as plain values.
pub struct ListenerView<ActorMes> {
    pub key: Seq<char>,
    pub url: Seq<char>,
    pub topic: Seq<char>,
    pub subscription: Seq<char>,
    /// The mailboxes of the subscribers, in order.
    pub processors: Seq<MailboxView<ActorMes>>,
    pub state: LinkState,
    /// The delivery that waits for its settlement.
    pub at_hand: Option<ActorMes>,
}

impl<ActorMes> View for AzureTopicListener<ActorMes> {
    type V = ListenerView<ActorMes>;

    closed spec fn view(&self) -> ListenerView<ActorMes> {
        ListenerView {
            key: self.key@,
            url: self.url@,
            topic: self.topic@,
            subscription: self.subscription@,
            processors: mailbox_views(self.processors@),
            state: self.state,
            at_hand: self.at_hand,
        }
    }
}

impl<ActorMes: Clone> AzureTopicListener<ActorMes> {
    /// The mailboxes are well formed, and a delivery is at hand exactly
    /// while the listener waits for a settlement.
    pub closed spec fn wf(&self) -> bool {
        &&& all_wf(self.processors@)
        &&& self.at_hand is Some <==> self.state.phase == LinkPhase::Settling
    }

    /// A listener that has not been started.
    pub fn new(
        key: &str,
        url: &str,
        topic: &str,
        subscription: &str,
        processors: Vec<Mailbox<ActorMes>>,
    ) -> (listener: Self)
        requires
            all_wf(processors@),
        ensures
            listener.wf(),
            listener@ == (ListenerView {
                key: key@,
                url: url@,
                topic: topic@,
                subscription: subscription@,
                processors: mailbox_views(processors@),
                state: initial_link(),
                at_hand: None,
            }),
    {
        AzureTopicListener {
            key: String::from_str(key),
            url: String::from_str(url),
            topic: String::from_str(topic),
            subscription: String::from_str(subscription),
            processors,
            state: LinkState { phase: LinkPhase::Disconnected, shutdown: false },
            at_hand: None,
        }
    }

    /// The container id of the connection: the key of the actor.
    pub fn container_id(&self) -> (id: &String)
        ensures
            id@ == self@.key,
    {
        &self.key
    }

    /// The URL of the broker.
    pub fn url(&self) -> (url: &String)
        ensures
            url@ == self@.url,
    {
        &self.url
    }

    /// The name of the link.
    pub fn link_name(&self) -> (name: String)
        ensures
            name@ == crate::link::listener_link_name(),
    {
        String::from_str("listener-link")
    }

    /// The address of the link: `<topic>/Subscriptions/<subscription>`.
    pub fn address(&self) -> (address: String)
        ensures
            address@ == subscription_address(self@.topic, self@.subscription),
    {
        concat3(self.topic.as_str(), "/Subscriptions/", self.subscription.as_str())
    }

    /// The id of the listener: `<topic>-<subscription>`.
    pub fn id(&self) -> (id: String)
        ensures
            id@ == endpoint_id(self@.topic, self@.subscription),
    {
        concat3(self.topic.as_str(), "-", self.subscription.as_str())
    }

    /// The state of the connection.
    pub fn state(&self) -> (state: LinkState)
        ensures
            state == self@.state,
    {
        self.state
    }

    /// Number of subscribers.
    pub fn subscriber_count(&self) -> (n: usize)
        ensures
            n == self@.processors.len(),
    {
        self.processors.len()
    }

    /// Marks subscriber `i` as stale: its mailbox is closed, so that the
    /// next delivery takes it off the list.
    pub fn close_subscriber(&mut self, i: usize)
        requires
            old(self).wf(),
            i < old(self)@.processors.len(),
        ensures
            final(self).wf(),
            final(self)@ == (ListenerView {
                processors: old(self)@.processors.update(
                    i as int,
                    old(self)@.processors[i as int].close(),
                ),
                ..old(self)@
            }),
    {
        let ghost before = self.processors@;
        self.processors[i].close();
        proof {
            assert forall|k: int| 0 <= k < before.len() && k != i implies self.processors@[k]
                == before[k] by {}
            assert(mailbox_views(self.processors@) =~= mailbox_views(before).update(
                i as int,
                mailbox_views(before)[i as int].close(),
            ));
        }
    }

    /// Receives for subscriber `i`: the oldest message in its mailbox.
    pub fn receive(&mut self, i: usize) -> (delivery: Delivery<ActorMes>)
        requires
            old(self).wf(),
            i < old(self)@.processors.len(),
        ensures
            final(self).wf(),
            final(self)@ == (ListenerView {
                processors: old(self)@.processors.update(
                    i as int,
                    old(self)@.processors[i as int].take(),
                ),
                ..old(self)@
            }),
            match delivery {
                Delivery::Message(m) => old(self)@.processors[i as int].pending.len() > 0 && m
                    == old(self)@.processors[i as int].pending[0],
                Delivery::Empty => old(self)@.processors[i as int].pending.len() == 0 && !old(
                    self,
                )@.processors[i as int].closed,
                Delivery::Closed => old(self)@.processors[i as int].pending.len() == 0 && old(
                    self,
                )@.processors[i as int].closed,
            },
    {
        let ghost before = self.processors@;
        let delivery = self.processors[i].try_recv();
        proof {
            assert forall|k: int| 0 <= k < before.len() && k != i implies self.processors@[k]
                == before[k] by {}
            assert(mailbox_views(self.processors@) =~= mailbox_views(before).update(
                i as int,
                mailbox_views(before)[i as int].take(),
            ));
        }
        delivery
    }

    /// Takes a delivery: it is kept at hand until the broker has confirmed
    /// its settlement. A listener that is not waiting for a delivery
    /// ignores it.
    pub fn deliver(&mut self, message: ActorMes) -> (step: LinkStep)
        requires
            old(self).wf(),
        ensures
            final(self).wf(),
            step == link_step(old(self)@.state, LinkEvent::Delivered),
            final(self)@ == (ListenerView {
                state: step.state,
                at_hand: if old(self)@.state.phase == LinkPhase::Connected {
                    Some(message)
                } else {
                    old(self)@.at_hand
                },
                ..old(self)@
            }),
    {
        let step = advance_link(self.state, LinkEvent::Delivered);
        match self.state.phase {
            LinkPhase::Connected => {
                self.at_hand = Some(message);
            },
            _ => {},
        }
        self.state = step.state;
        step
    }

    /// Takes an event. On the confirmation of a settlement the delivery
    /// at hand goes to the subscribers: the stale ones are taken off the
    /// list, and each of the others gets one copy. A delivery whose
    /// settlement failed is dropped. The arrival of a delivery is not
    /// taken here, for it comes with its payload: see [`Self::deliver`].
    pub fn on_event(&mut self, event: LinkEvent) -> (step: LinkStep)
        requires
            old(self).wf(),
        ensures
            final(self).wf(),
            event == LinkEvent::Delivered ==> final(self)@ == old(self)@ && step == (LinkStep {
                state: old(self)@.state,
                forward: false,
                close: false,
                next: LinkAction::Nothing,
            }),
            event != LinkEvent::Delivered ==> {
                &&& step == link_step(old(self)@.state, event)
                &&& final(self)@.state == step.state
                &&& final(self)@.at_hand == if step.state.phase == LinkPhase::Settling {
                    old(self)@.at_hand
                } else {
                    None
                }
            },
            final(self)@.key == old(self)@.key,
            final(self)@.url == old(self)@.url,
            final(self)@.topic == old(self)@.topic,
            final(self)@.subscription == old(self)@.subscription,
            !step.forward ==> final(self)@.processors == old(self)@.processors,
            step.forward ==> {
                &&& old(self)@.at_hand is Some
                &&& final(self)@.processors.len() == open_ones(old(self)@.processors).len()
                &&& forall|i: int|
                    0 <= i < final(self)@.processors.len() ==> delivered_to(
                        #[trigger] open_ones(old(self)@.processors)[i],
                        final(self)@.processors[i],
                        old(self)@.at_hand->0,
                    )
            },
    {
        match event {
            LinkEvent::Delivered => {
                return LinkStep {
                    state: self.state,
                    forward: false,
                    close: false,
                    next: LinkAction::Nothing,
                };
            },
            _ => {},
        }
        let step = advance_link(self.state, event);
        self.state = step.state;
        match step.state.phase {
            LinkPhase::Settling => {},
            _ => {
                let message = self.at_hand.take();
                if step.forward {
                    match message {
                        Some(message) => {
                            let ghost before = self.processors@;
                            publish(&message, &mut self.processors);
                            proof {
                                assert forall|i: int|
                                    0 <= i < self.processors@.len() implies delivered_to(
                                    #[trigger] open_ones(mailbox_views(before))[i],
                                    mailbox_views(self.processors@)[i],
                                    message,
                                ) by {
                                    assert(mailbox_views(self.processors@)[i]
                                        == self.processors@[i]@);
                                }
                            }
                        },
                        None => {},
                    }
                }
            },
        }
        step
    }

    /// Takes a service message. A start that comes again is ignored; a
    /// stop fires the shutdown token.
    pub fn handle(&mut self, message: ActorServiceMessage) -> (step: LinkStep)
        requires
            old(self).wf(),
        ensures
            final(self).wf(),
            step == link_step(
                old(self)@.state,
                match message {
                    ActorServiceMessage::Start => LinkEvent::Begin,
                    ActorServiceMessage::Stop => LinkEvent::Shutdown,
                },
            ),
            final(self)@.state == step.state,
            !step.forward,
            final(self)@.processors == old(self)@.processors,
    {
        match message {
            ActorServiceMessage::Start => self.on_event(LinkEvent::Begin),
            ActorServiceMessage::Stop => self.on_event(LinkEvent::Shutdown),
        }
    }
}

impl<ActorMes: Clone> Default for AzureTopicListener<ActorMes> {
    fn default() -> (listener: Self)
        ensures
            listener.wf(),
            listener@ == (ListenerView {
                key: "AzureTopicListener"@,
                url: "amqp://localhost:5672"@,
                topic: "topic"@,
                subscription: "subscription"@,
                processors: Seq::<MailboxView<ActorMes>>::empty(),
                state: initial_link(),
                at_hand: None,
            }),
    {
        let processors: Vec<Mailbox<ActorMes>> = Vec::new();
        assert(mailbox_views(processors@) =~= Seq::<MailboxView<ActorMes>>::empty());
        AzureTopicListener::new(
            "AzureTopicListener",
            "amqp://localhost:5672",
            "topic",
            "subscription",
            processors,
        )
    }
}

/// How a send went.
#[derive(Debug)]
pub enum SendOutcome<AzureM> {
    /// The broker accepted the message.
    Accepted,
    /// The broker answered with another outcome, described by the text.
    NotAccepted(String),
    /// The connection failed; the message comes back.
    Failed(AzureM, String),
}

/// The AMQP topic sender.
pub struct AzureTopicSender<AzureM> {
    key: String,
    url: String,
    topic: String,
    connected: bool,
    message_queue: VecDeque<AzureM>,
    is_processing: bool,
    stopped: bool,
}

/// A sender as plain values.
pub struct SenderView<AzureM> {
    pub key: Seq<char>,
    pub url: Seq<char>,
    pub topic: Seq<char>,
    /// Whether connection, session and link are up.
    pub connected: bool,
    /// The messages that wait to be sent, oldest first.
    pub pending: Seq<AzureM>,
    /// Whether a send is under way.
    pub in_flight: bool,
    pub stopped: bool,
}

impl<AzureM> View for AzureTopicSender<AzureM> {
    type V = SenderView<AzureM>;

    closed spec fn view(&self) -> SenderView<AzureM> {
        SenderView {
            key: self.key@,
            url: self.url@,
            topic: self.topic@,
            connected: self.connected,
            pending: self.message_queue@,
            in_flight: self.is_processing,
            stopped: self.stopped,
        }
    }
}

impl<AzureM> SenderView<AzureM> {
    /// Whether the next message can be sent now: the sender is connected
    /// and not stopped, no send is under way, and a message waits.
    pub open spec fn ready(self) -> bool {
        self.connected && !self.stopped && !self.in_flight && self.pending.len() > 0
    }
}

/// The step at which a connection to the broker failed.
#[derive(Debug, Clone, Copy, PartialEq, Eq, Structural)]
pub enum ConnectStage {
    /// The connection could not be opened.
    Connection,
    /// The session could not be begun.
    Session,
    /// The link could not be attached.
    Link,
    /// A lost connection could not be set up again.
    Reconnect,
}

/// What stands in front of the detail of a failed connection.
pub open spec fn stage_prefix(stage: ConnectStage) -> Seq<char> {
    match stage {
        ConnectStage::Connection => "Connection failed: "@,
        ConnectStage::Session => "Session failed: "@,
        ConnectStage::Link => "Sender attach failed: "@,
        ConnectStage::Reconnect => "Reconnection failed: "@,
    }
}

/// The message of a connection that failed at `stage`.
pub fn connect_fault(stage: ConnectStage, detail: &str) -> (text: String)
    ensures
        text@ == stage_prefix(stage) + detail@,
{
    let prefix = match stage {
        ConnectStage::Connection => "Connection failed: ",
        ConnectStage::Session => "Session failed: ",
        ConnectStage::Link => "Sender attach failed: ",
        ConnectStage::Reconnect => "Reconnection failed: ",
    };
    concat2(prefix, detail)
}

/// The message of a send that the broker did not accept.
pub open spec fn not_accepted_text(state: Seq<char>) -> Seq<char> {
    "Message not accepted: "@ + state
}

/// The message of a send that failed.
pub open spec fn send_failed_text(detail: Seq<char>) -> Seq<char> {
    "Send failed: "@ + detail
}

impl<AzureM> AzureTopicSender<AzureM> {
    /// A sender that is not connected and has nothing to send.
    pub fn new(key: &str, url: &str, topic: &str) -> (sender: Self)
        ensures
            sender@ == (SenderView {
                key: key@,
                url: url@,
                topic: topic@,
                connected: false,
                pending: Seq::<AzureM>::empty(),
                in_flight: false,
                stopped: false,
            }),
    {
        AzureTopicSender {
            key: String::from_str(key),
            url: String::from_str(url),
            topic: String::from_str(topic),
            connected: false,
            message_queue: VecDeque::new(),
            is_processing: false,
            stopped: false,
        }
    }

    /// The container id of the connection: the key of the actor.
    pub fn container_id(&self) -> (id: &String)
        ensures
            id@ == self@.key,
    {
        &self.key
    }

    /// The URL of the broker.
    pub fn url(&self) -> (url: &String)
        ensures
            url@ == self@.url,
    {
        &self.url
    }

    /// The name of the link: `<key>-sender-link`.
    pub fn link_name(&self) -> (name: String)
        ensures
            name@ == sender_link_name(self@.key),
    {
        concat2(self.key.as_str(), "-sender-link")
    }

    /// The address of the link: the topic.
    pub fn address(&self) -> (address: &String)
        ensures
            address@ == self@.topic,
    {
        &self.topic
    }

    /// Whether connection, session and link are up.
    pub fn is_connected(&self) -> (connected: bool)
        ensures
            connected == self@.connected,
    {
        self.connected
    }

    /// Number of messages that wait to be sent.
    pub fn pending(&self) -> (n: usize)
        ensures
            n == self@.pending.len(),
    {
        self.message_queue.len()
    }

    /// The connection is up. What waits is kept and can be sent now.
    pub fn connection_established(&mut self)
        ensures
            final(self)@ == (SenderView { connected: !old(self)@.stopped, ..old(self)@ }),
    {
        self.connected = !self.stopped;
    }

    /// The connection is gone. What waits is kept; the answer says whether
    /// to connect again, which a stopped sender does not.
    pub fn connection_lost(&mut self) -> (reconnect: bool)
        ensures
            final(self)@ == (SenderView { connected: false, ..old(self)@ }),
            reconnect == !old(self)@.stopped,
    {
        self.connected = false;
        !self.stopped
    }

    /// Takes a message to send: it goes behind the messages that wait. A
    /// stopped sender refuses it as closed.
    pub fn handle(&mut self, message: SendMessage<AzureM>) -> (done: ActorResultVoid)
        ensures
            match done {
                Ok(()) => !old(self)@.stopped && final(self)@ == (SenderView {
                    pending: old(self)@.pending.push(message.0),
                    ..old(self)@
                }),
                Err(error) => {
                    &&& old(self)@.stopped
                    &&& final(self)@ == old(self)@
                    &&& error.kind_of() == crate::error::ErrorKind::Channel
                    &&& error.reason() == crate::error::channel_closed()
                },
            },
    {
        if self.stopped {
            return Err(ActorError::closed());
        }
        self.message_queue.push_back(message.0);
        Ok(())
    }

    /// Takes a service message. A start that comes again is ignored. A
    /// stop closes the sender: nothing more is taken or sent, and what
    /// waits stays unsent.
    pub fn handle_service(&mut self, message: ActorServiceMessage) -> (done: ActorResultVoid)
        ensures
            done is Ok,
            final(self)@ == match message {
                ActorServiceMessage::Start => old(self)@,
                ActorServiceMessage::Stop => SenderView {
                    stopped: true,
                    connected: false,
                    ..old(self)@
                },
            },
    {
        match message {
            ActorServiceMessage::Start => {},
            ActorServiceMessage::Stop => {
                self.stopped = true;
                self.connected = false;
            },
        }
        Ok(())
    }

    /// The message to send next, if the sender is ready: the oldest one
    /// that waits. It is under way from now on.
    pub fn next_send(&mut self) -> (message: Option<AzureM>)
        ensures
            match message {
                Some(m) => {
                    &&& old(self)@.ready()
                    &&& m == old(self)@.pending[0]
                    &&& final(self)@ == (SenderView {
                        pending: old(self)@.pending.drop_first(),
                        in_flight: true,
                        ..old(self)@
                    })
                },
                None => !old(self)@.ready() && final(self)@ == old(self)@,
            },
    {
        if !self.connected || self.stopped || self.is_processing {
            return None;
        }
        match self.message_queue.pop_front() {
            Some(m) => {
                self.is_processing = true;
                assert(self.message_queue@ =~= old(self).message_queue@.drop_first());
                Some(m)
            },
            None => None,
        }
    }

    /// Takes the outcome of the send that is under way. A message that
    /// the broker did not accept is dropped with a runtime error; a
    /// message whose send failed goes back to the front of those that
    /// wait, and the connection counts as lost.
    pub fn send_finished(&mut self, outcome: SendOutcome<AzureM>) -> (fault: Option<ActorError>)
        ensures
            match outcome {
                SendOutcome::Accepted => {
                    &&& fault is None
                    &&& final(self)@ == (SenderView { in_flight: false, ..old(self)@ })
                },
                SendOutcome::NotAccepted(state) => {
                    &&& fault matches Some(ActorError::RuntimeError(m))
                    &&& m@ == not_accepted_text(state@)
                    &&& final(self)@ == (SenderView { in_flight: false, ..old(self)@ })
                },
                SendOutcome::Failed(message, detail) => {
                    &&& fault matches Some(ActorError::RuntimeError(m))
                    &&& m@ == send_failed_text(detail@)
                    &&& final(self)@ == (SenderView {
                        in_flight: false,
                        connected: false,
                        pending: seq![message] + old(self)@.pending,
                        ..old(self)@
                    })
                },
            },
    {
        self.is_processing = false;
        match outcome {
            SendOutcome::Accepted => None,
            SendOutcome::NotAccepted(state) => Some(
                ActorError::RuntimeError(concat2("Message not accepted: ", state.as_str())),
            ),
            SendOutcome::Failed(message, detail) => {
                self.connected = false;
                self.message_queue.push_front(message);
                Some(ActorError::RuntimeError(concat2("Send failed: ", detail.as_str())))
            },
        }
    }
}

/// What the driver of a sender is to do next while the sender works
/// through the messages that wait.
#[derive(Debug)]
pub enum DrainStep<AzureM> {
    /// Send the message, and report how it went.
    Send(AzureM),
    /// Set the connection up again, and report whether it is up.
    Reconnect,
    /// Nothing more can be sent now. The result is that of the whole run.
    Done(ActorResultVoid),
}

/// One run through the messages that wait: it keeps the first fault of a
/// send, asks for a new connection when a send has lost the old one, and
/// ends when nothing can be sent or a connection could not be set up.
pub struct Drain {
    first_fault: Option<String>,
    reconnect_due: bool,
    given_up: bool,
}

/// A run through the waiting messages as plain values.
pub struct DrainView {
    /// The message of the first send that went wrong, if one did.
    pub fault: Option<Seq<char>>,
    /// Whether the connection is to be set up again before the next send.
    pub reconnect_due: bool,
    /// Whether a connection could not be set up again.
    pub given_up: bool,
}

impl View for Drain {
    type V = DrainView;

    closed spec fn view(&self) -> DrainView {
        DrainView {
            fault: match self.first_fault {
                Some(text) => Some(text@),
                None => None,
            },
            reconnect_due: self.reconnect_due,
            given_up: self.given_up,
        }
    }
}

/// The message of the fault that a send with this outcome leaves.
pub open spec fn outcome_fault<AzureM>(outcome: SendOutcome<AzureM>) -> Option<Seq<char>> {
    match outcome {
        SendOutcome::Accepted => None,
        SendOutcome::NotAccepted(state) => Some(not_accepted_text(state@)),
        SendOutcome::Failed(_, detail) => Some(send_failed_text(detail@)),
    }
}

/// The sender after the send under way has ended with `outcome`.
pub open spec fn after_send<AzureM>(
    sender: SenderView<AzureM>,
    outcome: SendOutcome<AzureM>,
) -> SenderView<AzureM> {
    match outcome {
        SendOutcome::Failed(message, _) => SenderView {
            in_flight: false,
            connected: false,
            pending: seq![message] + sender.pending,
            ..sender
        },
        _ => SenderView { in_flight: false, ..sender },
    }
}

/// Whether `result` is the result of a run whose first fault is `fault`:
/// a runtime error with that message, or success where nothing went wrong.
pub open spec fn is_drain_result(result: ActorResultVoid, fault: Option<Seq<char>>) -> bool {
    match fault {
        Some(text) => result matches Err(ActorError::RuntimeError(m)) && m@ == text,
        None => result is Ok,
    }
}

impl Drain {
    /// A run that begins now. A sender that is not connected is to
    /// connect first, unless it is stopped.
    pub fn begin<AzureM>(sender: &AzureTopicSender<AzureM>) -> (drain: Self)
        ensures
            drain@ == (DrainView {
                fault: None,
                reconnect_due: !sender@.connected && !sender@.stopped,
                given_up: false,
            }),
    {
        Drain {
            first_fault: None,
            reconnect_due: !sender.connected && !sender.stopped,
            given_up: false,
        }
    }

    /// What to do next. A run that has given up is done; a connection that
    /// is due comes before any send; otherwise the oldest waiting message
    /// is sent if the sender is ready, and the run is done if it is not.
    pub fn next<AzureM>(&self, sender: &mut AzureTopicSender<AzureM>) -> (step: DrainStep<AzureM>)
        ensures
            match step {
                DrainStep::Done(result) => {
                    &&& self@.given_up || (!self@.reconnect_due && !old(sender)@.ready())
                    &&& is_drain_result(result, self@.fault)
                    &&& final(sender)@ == old(sender)@
                },
                DrainStep::Reconnect => {
                    &&& !self@.given_up
                    &&& self@.reconnect_due
                    &&& final(sender)@ == old(sender)@
                },
                DrainStep::Send(m) => {
                    &&& !self@.given_up
                    &&& !self@.reconnect_due
                    &&& old(sender)@.ready()
                    &&& m == old(sender)@.pending[0]
                    &&& final(sender)@ == (SenderView {
                        pending: old(sender)@.pending.drop_first(),
                        in_flight: true,
                        ..old(sender)@
                    })
                },
            },
    {
        if !self.given_up {
            if self.reconnect_due {
                return DrainStep::Reconnect;
            }
            match sender.next_send() {
                Some(m) => {
                    return DrainStep::Send(m);
                },
                None => {},
            }
        }
        match &self.first_fault {
            Some(text) => DrainStep::Done(Err(ActorError::RuntimeError(text.clone()))),
            None => DrainStep::Done(Ok(())),
        }
    }

    /// Takes the outcome of the send under way. The fault of the first
    /// send that went wrong is kept, later ones are dropped. A failed send
    /// has lost the connection: the answer says so, and the connection is
    /// due again unless the sender is stopped.
    pub fn settle<AzureM>(
        &mut self,
        sender: &mut AzureTopicSender<AzureM>,
        outcome: SendOutcome<AzureM>,
    ) -> (lost: bool)
        ensures
            lost == (outcome is Failed),
            final(sender)@ == after_send(old(sender)@, outcome),
            final(self)@ == (DrainView {
                fault: if old(self)@.fault is Some {
                    old(self)@.fault
                } else {
                    outcome_fault(outcome)
                },
                reconnect_due: if outcome is Failed {
                    !old(sender)@.stopped
                } else {
                    old(self)@.reconnect_due
                },
                given_up: old(self)@.given_up,
            }),
    {
        let lost = match &outcome {
            SendOutcome::Failed(_, _) => true,
            _ => false,
        };
        let fault = sender.send_finished(outcome);
        if self.first_fault.is_none() {
            match fault {
                Some(error) => {
                    self.first_fault = Some(error.into_message());
                },
                None => {},
            }
        }
        if lost {
            self.reconnect_due = sender.connection_lost();
        }
        lost
    }

    /// Takes what came of setting the connection up again. With a
    /// connection the sender can send again; without one the run gives up,
    /// and what waits is kept for the next run.
    pub fn reconnected<AzureM>(&mut self, sender: &mut AzureTopicSender<AzureM>, up: bool)
        ensures
            final(self)@ == (DrainView {
                reconnect_due: false,
                given_up: old(self)@.given_up || !up,
                ..old(self)@
            }),
            final(sender)@ == if up {
                SenderView { connected: !old(sender)@.stopped, ..old(sender)@ }
            } else {
                old(sender)@
            },
    {
        self.reconnect_due = false;
        if up {
            sender.connection_established();
        } else {
            self.given_up = true;
        }
    }
}

/// The script that sends a message to the emulator.
pub open spec fn send_script() -> Seq<char> {
    "src/servers/azure/sb-emulator/send_message.py"@
}

/// The script that listens to the emulator and calls back.
pub open spec fn client_script() -> Seq<char> {
    "src/actors/servers/azure/sb-emulator/client_test.py"@
}

/// The arguments of the command that sends the payload whose base64 text
/// is `encoded` to `topic`.
pub open spec fn send_args(topic: Seq<char>, encoded: Seq<char>) -> Seq<Seq<char>> {
    seq![send_script(), "--topic"@, topic, "--base64"@, encoded]
}

/// The arguments of the command that listens to a subscription and posts
/// what it receives to `ret_url`.
pub open spec fn client_args(
    conn: Seq<char>,
    sub: Seq<char>,
    topic: Seq<char>,
    ret_url: Seq<char>,
) -> Seq<Seq<char>> {
    seq![client_script(), "--topic"@, topic, "--sub"@, sub, "--conn"@, conn, "--ret"@, ret_url]
}

/// The URL at which the listener on `port` takes the messages back.
pub open spec fn callback_url(port: u16) -> Seq<char> {
    "http://localhost:"@ + decimal_digits(port as nat) + "/ret"@
}

/// The URL at which the listener on `port` takes the messages back.
pub fn callback_address(port: u16) -> (url: String)
    ensures
        url@ == callback_url(port),
{
    concat3("http://localhost:", decimal(port as u64).as_str(), "/ret")
}

/// The command that sends a payload, given as its base64 text, to a
/// topic: `python` with the arguments of [`send_args`].
pub fn send_command_for(topic: &str, encoded: String) -> (command: CommandSpec)
    ensures
        command.program@ == "python"@,
        views(command.args@) == send_args(topic@, encoded@),
        command.env@.len() == 0,
        !command.kill_on_drop,
{
    let mut args: Vec<String> = Vec::new();
    args.push(String::from_str("src/servers/azure/sb-emulator/send_message.py"));
    args.push(String::from_str("--topic"));
    args.push(String::from_str(topic));
    args.push(String::from_str("--base64"));
    args.push(encoded);
    assert(views(args@) =~= send_args(topic@, encoded@));
    CommandSpec { program: String::from_str("python"), args, env: Vec::new(), kill_on_drop: false }
}

/// The command that sends `message` to `topic`. A message whose base64
/// text would not fit the machine has none.
pub fn send_azure_message(topic: &str, message: &[u8]) -> (command: Option<CommandSpec>)
    ensures
        match command {
            Some(c) => {
                &&& base64_fits(message@.len())
                &&& c.program@ == "python"@
                &&& views(c.args@) == send_args(topic@, base64_text(message@))
                &&& c.env@.len() == 0
                &&& !c.kill_on_drop
            },
            None => !base64_fits(message@.len()),
        },
{
    if message.len() / 3 >= usize::MAX / 4 {
        return None;
    }
    let encoded = base64_standard(message);
    Some(send_command_for(topic, encoded))
}

/// The command that listens to subscription `sub` of `topic` with the
/// connection string `conn` and posts what it receives to `ret_url`:
/// `python` with the arguments of [`client_args`], unbuffered, and killed
/// when its handle is dropped.
pub fn start_py_server(conn: &str, sub: &str, topic: &str, ret_url: &str) -> (command: CommandSpec)
    ensures
        command.program@ == "python"@,
        views(command.args@) == client_args(conn@, sub@, topic@, ret_url@),
        pairs_view(command.env@) == seq![("PYTHONUNBUFFERED"@, "1"@)],
        command.kill_on_drop,
{
    let mut args: Vec<String> = Vec::new();
    args.push(String::from_str("src/actors/servers/azure/sb-emulator/client_test.py"));
    args.push(String::from_str("--topic"));
    args.push(String::from_str(topic));
    args.push(String::from_str("--sub"));
    args.push(String::from_str(sub));
    args.push(String::from_str("--conn"));
    args.push(String::from_str(conn));
    args.push(String::from_str("--ret"));
    args.push(String::from_str(ret_url));
    assert(views(args@) =~= client_args(conn@, sub@, topic@, ret_url@));
    let mut env: Vec<(String, String)> = Vec::new();
    env.push(pair("PYTHONUNBUFFERED", "1"));
    assert(pairs_view(env@) =~= seq![("PYTHONUNBUFFERED"@, "1"@)]);
    CommandSpec { program: String::from_str("python"), args, env, kill_on_drop: true }
}

/// The message of a script that ended in failure.
pub open spec fn script_fault(status: Seq<char>) -> Seq<char> {
    "Python script failed with status: "@ + status
}

/// What the end of the sending script means: a failure is a runtime
/// error that names the status.
pub fn script_outcome(success: bool, status: &str) -> (done: VoidRes)
    ensures
        match done {
            Ok(()) => success,
            Err(error) => !success && (error matches KernelError::ServerError(
                ServerError::RuntimeError(m),
            ) && m@ == script_fault(status@)),
        },
{
    if success {
        Ok(())
    } else {
        Err(
            KernelError::ServerError(
                ServerError::RuntimeError(
                    concat2("Python script failed with status: ", status),
                ),
            ),
        )
    }
}

/// What the client does about a message.
#[derive(Debug)]
pub enum ClientAction {
    /// Nothing.
    Nothing,
    /// Abort the task of the client.
    Abort,
    /// Run the command.
    Run(CommandSpec),
}

/// The client of the service-bus emulator.
#[derive(Debug)]
pub struct AzureTopicClient {
    namespace: String,
    policy: (String, String),
    topic: String,
    subscription: String,
}

/// A client as plain values.
pub struct ClientView {
    pub namespace: Seq<char>,
    pub policy: (Seq<char>, Seq<char>),
    pub topic: Seq<char>,
    pub subscription: Seq<char>,
}

impl View for AzureTopicClient {
    type V = ClientView;

    closed spec fn view(&self) -> ClientView {
        ClientView {
            namespace: self.namespace@,
            policy: (self.policy.0@, self.policy.1@),
            topic: self.topic@,
            subscription: self.subscription@,
        }
    }
}

impl AzureTopicClient {
    /// A client for a subscription of a topic.
    pub fn new(namespace: &str, policy: (&str, &str), topic: &str, subscription: &str) -> (client:
        Self)
        ensures
            client@ == (ClientView {
                namespace: namespace@,
                policy: (policy.0@, policy.1@),
                topic: topic@,
                subscription: subscription@,
            }),
    {
        AzureTopicClient {
            namespace: String::from_str(namespace),
            policy: (String::from_str(policy.0), String::from_str(policy.1)),
            topic: String::from_str(topic),
            subscription: String::from_str(subscription),
        }
    }

    /// The id of the client: `<topic>-<subscription>`.
    pub fn id(&self) -> (id: String)
        ensures
            id@ == endpoint_id(self@.topic, self@.subscription),
    {
        concat3(self.topic.as_str(), "-", self.subscription.as_str())
    }

    /// Decides on a message whose payload, if it has one, was checked as
    /// UTF-8 with the result `fault`.
    pub fn process_checked(&self, message: AzureMessage, fault: Option<String>) -> (action: Res<
        ClientAction,
    >)
        ensures
            match message {
                AzureMessage::Start => action matches Ok(ClientAction::Nothing),
                AzureMessage::Stop => action matches Ok(ClientAction::Abort),
                AzureMessage::SendMessage(payload) => match fault {
                    Some(text) => action matches Err(
                        KernelError::ServerError(ServerError::RuntimeError(m)),
                    ) && m@ == text@,
                    None => if base64_fits(payload@.len()) {
                        action matches Ok(ClientAction::Run(c)) && c.program@ == "python"@ && views(
                            c.args@,
                        ) == send_args(self@.topic, base64_text(payload@))
                    } else {
                        action matches Err(KernelError::ServerError(ServerError::RuntimeError(m)))
                            && m@ == "Message is too long"@
                    },
                },
            },
    {
        match message {
            AzureMessage::Start => Ok(ClientAction::Nothing),
            AzureMessage::Stop => Ok(ClientAction::Abort),
            AzureMessage::SendMessage(payload) => {
                match fault {
                    Some(text) => Err(KernelError::ServerError(ServerError::RuntimeError(text))),
                    None => {
                        match send_azure_message(self.topic.as_str(), payload.as_slice()) {
                            Some(command) => Ok(ClientAction::Run(command)),
                            None => Err(
                                KernelError::ServerError(
                                    ServerError::RuntimeError(
                                        String::from_str("Message is too long"),
                                    ),
                                ),
                            ),
                        }
                    },
                }
            },
        }
    }

    /// Decides on a message. A start does nothing and a stop aborts the
    /// task; a payload that is UTF-8 is sent by the helper script, and one
    /// that is not is a runtime error that says what is wrong with it.
    pub fn process(&self, message: AzureMessage) -> (action: Res<ClientAction>)
        ensures
            match message {
                AzureMessage::Start => action matches Ok(ClientAction::Nothing),
                AzureMessage::Stop => action matches Ok(ClientAction::Abort),
                AzureMessage::SendMessage(payload) => match utf8_fault_text(payload@) {
                    Some(text) => action matches Err(
                        KernelError::ServerError(ServerError::RuntimeError(m)),
                    ) && m@ == text,
                    None => if base64_fits(payload@.len()) {
                        action matches Ok(ClientAction::Run(c)) && c.program@ == "python"@ && views(
                            c.args@,
                        ) == send_args(self@.topic, base64_text(payload@))
                    } else {
                        action matches Err(KernelError::ServerError(ServerError::RuntimeError(m)))
                            && m@ == "Message is too long"@
                    },
                },
            },
            message matches AzureMessage::SendMessage(payload) ==> (action is Ok) == (
            vstd::utf8::valid_utf8(payload@) && base64_fits(payload@.len())),
    {
        let fault = match &message {
            AzureMessage::SendMessage(payload) => utf8_fault(payload.as_slice()),
            _ => None,
        };
        self.process_checked(message, fault)
    }
}

impl Default for AzureTopicClient {
    fn default() -> (client: Self)
        ensures
            client@ == (ClientView {
                namespace: "localhost"@,
                policy: ("RootManageSharedAccessKey"@, "SAS_KEY_VALUE"@),
                topic: "test-topic"@,
                subscription: "test-sub"@,
            }),
    {
        AzureTopicClient::new(
            "localhost",
            ("RootManageSharedAccessKey", "SAS_KEY_VALUE"),
            "test-topic",
            "test-sub",
        )
    }
}

} // verus!
