//! One client connection of the broker emulator's data plane.
//!
//! The connection advances through protocol header, SASL, Open, Begin and
//! Attach, and then routes transfers to the bus. Each received chunk is one
//! step: it may change the connection, change the bus, and ask for frames
//! to be written back, in order.

use crate::amqp::broker::{
    all_transfer_frames, frames_view, stored_message, transfer_frames, BusState, BusView,
};
use crate::amqp::extract::{
    entity_in_text, entity_of_text, extract_message_data, message_data, subscriptions_infix,
    topic_prefix, queue_prefix, Entity, EntityType,
};
use crate::amqp::frames::{
    acknowledged_id, attach_frame, begin_frame, create_attach_response, create_begin_response,
    create_disposition_frame, create_flow_frame, create_open_response,
    create_sasl_mechanisms_frame, create_sasl_outcome_frame, disposition_frame, flow_frame,
    has_performative, is_attach_frame, is_begin_frame, is_open_frame, is_sasl_init_frame,
    is_transfer_frame, open_frame, sasl_mechanisms_frame, sasl_outcome_frame,
};
use crate::error::ServerError;
use crate::outside::{is_uuid_text, lossy_text, random_uuid, utf8_lossy};
use crate::text::{chars_of, find_text, first_occurrence, contains_text, matches_at, occurs_at, slice_text};
use vstd::prelude::*;

verus! {

/// Number of messages that the emulator grants a fresh link.
pub const LINK_CREDIT: u32 = 100;

/// The eight bytes that open a connection.
pub open spec fn protocol_header() -> Seq<u8> {
    seq![0x41u8, 0x4D, 0x51, 0x50, 0x00, 0x01, 0x00, 0x00]
}

/// Whether `data` starts like a protocol header: at least eight bytes, the
/// first four of them `AMQP`.
pub open spec fn is_protocol_header(data: Seq<u8>) -> bool {
    data.len() >= 8 && data[0] == 0x41 && data[1] == 0x4D && data[2] == 0x51 && data[3] == 0x50
}

/// `s` without `prefix` at its start, where it starts with it.
pub open spec fn strip_prefix(s: Seq<char>, prefix: Seq<char>) -> Option<Seq<char>> {
    if occurs_at(s, prefix, 0) {
        Some(s.skip(prefix.len() as int))
    } else {
        None
    }
}

/// The name under which the bus knows a queue: its address without
/// `queue:`.
pub open spec fn queue_name_of(address: Seq<char>) -> Seq<char> {
    match strip_prefix(address, queue_prefix()) {
        Some(name) => name,
        None => address,
    }
}

/// The name under which the bus knows a topic: its address without
/// `topic:`.
pub open spec fn topic_name_of(address: Seq<char>) -> Seq<char> {
    match strip_prefix(address, topic_prefix()) {
        Some(name) => name,
        None => address,
    }
}

/// The topic and the subscription that an address of the form
/// `topic:<topic>/subscriptions/<subscription>` names. The topic ends at
/// the first `/subscriptions/`.
pub open spec fn subscription_parts(address: Seq<char>) -> Option<(Seq<char>, Seq<char>)> {
    match strip_prefix(address, topic_prefix()) {
        Some(rest) => if contains_text(rest, subscriptions_infix()) {
            let at = choose|i: int| first_occurrence(rest, subscriptions_infix(), i);
            Some((rest.take(at), rest.skip(at + subscriptions_infix().len())))
        } else {
            None
        },
        None => None,
    }
}

/// Splits the address of a subscription into topic and subscription.
pub fn parse_subscription_name(name: &str) -> (parts: Option<(String, String)>)
    ensures
        match parts {
            Some((topic, sub)) => subscription_parts(name@) == Some((topic@, sub@)),
            None => subscription_parts(name@) is None,
        },
{
    let chars = chars_of(name);
    let prefix = chars_of("topic:");
    let infix = chars_of("/subscriptions/");
    if !matches_at(&chars, &prefix, 0) {
        return None;
    }
    let rest = slice_text(name, prefix.len(), chars.len());
    assert(rest@ =~= name@.skip(prefix.len() as int));
    let rest_chars = chars_of(rest.as_str());
    match find_text(&rest_chars, &infix) {
        Some(at) => {
            proof {
                let k = choose|i: int| first_occurrence(rest@, subscriptions_infix(), i);
                if k < at {
                    assert(false);
                }
                if at < k {
                    assert(false);
                }
            }
            let topic = slice_text(rest.as_str(), 0, at);
            let sub = slice_text(rest.as_str(), at + infix.len(), rest_chars.len());
            assert(topic@ =~= rest@.take(at as int));
            assert(sub@ =~= rest@.skip(at + subscriptions_infix().len()));
            Some((topic, sub))
        },
        None => None,
    }
}

/// `address` without `prefix` at its start, or all of it where it does not
/// start with it.
fn without_prefix(address: &str, prefix: &str) -> (name: String)
    ensures
        name@ == match strip_prefix(address@, prefix@) {
            Some(name) => name,
            None => address@,
        },
{
    let chars = chars_of(address);
    let lead = chars_of(prefix);
    if matches_at(&chars, &lead, 0) {
        let name = slice_text(address, lead.len(), chars.len());
        assert(name@ =~= address@.skip(prefix@.len() as int));
        name
    } else {
        let name = slice_text(address, 0, chars.len());
        assert(name@ =~= address@);
        name
    }
}

/// How far a connection has come.
pub struct AmqpConnection {
    connection_established: bool,
    sasl_negotiated: bool,
    session_begun: bool,
    link_established: bool,
    client_info: Option<EntityType>,
}

/// A connection as plain values.
pub struct ConnectionView {
    pub connection_established: bool,
    pub sasl_negotiated: bool,
    pub session_begun: bool,
    pub link_established: bool,
    pub client_info: Option<Entity>,
}

impl View for AmqpConnection {
    type V = ConnectionView;

    closed spec fn view(&self) -> ConnectionView {
        ConnectionView {
            connection_established: self.connection_established,
            sasl_negotiated: self.sasl_negotiated,
            session_begun: self.session_begun,
            link_established: self.link_established,
            client_info: match self.client_info {
                Some(e) => Some(e@),
                None => None,
            },
        }
    }
}

/// What one step does: the connection and the bus after it, and the
/// frames to write, in order.
pub struct Reaction {
    pub connection: ConnectionView,
    pub bus: BusView,
    pub frames: Seq<Seq<u8>>,
}

/// A connection on which nothing has been received.
pub open spec fn fresh_connection() -> ConnectionView {
    ConnectionView {
        connection_established: false,
        sasl_negotiated: false,
        session_begun: false,
        link_established: false,
        client_info: None,
    }
}

/// What waits for the subscription that the connection is attached to is
/// handed out; a connection attached to anything else does nothing.
pub open spec fn flush(connection: ConnectionView, bus: BusView) -> Reaction {
    match connection.client_info {
        Some(Entity::Subscription(address)) => match subscription_parts(address) {
            Some((topic, sub)) => Reaction {
                connection,
                bus: bus.drain(topic, sub),
                frames: transfer_frames(bus.pending(topic, sub)),
            },
            None => Reaction { connection, bus, frames: Seq::empty() },
        },
        _ => Reaction { connection, bus, frames: Seq::empty() },
    }
}

/// A transfer on an attached link: a payload for a queue is stored and
/// accepted; one for a topic is stored in every subscription and accepted,
/// and then all that waits in the topic's subscriptions is written back.
/// A transfer that is shorter than its header, or on a link to a
/// subscription, is ignored.
pub open spec fn route(
    connection: ConnectionView,
    bus: BusView,
    data: Seq<u8>,
    token: Seq<char>,
) -> Reaction {
    match (connection.client_info, message_data(data)) {
        (Some(Entity::Queue(address)), Some(payload)) => Reaction {
            connection,
            bus: bus.enqueue(queue_name_of(address), stored_message(payload, token)),
            frames: seq![disposition_frame(acknowledged_id(data))],
        },
        (Some(Entity::Topic(address)), Some(payload)) => {
            let topic = topic_name_of(address);
            let stored = bus.publish(topic, stored_message(payload, token));
            Reaction {
                connection,
                bus: stored.drain_topic(topic),
                frames: seq![disposition_frame(acknowledged_id(data))] + all_transfer_frames(
                    stored.subscriptions(topic),
                ),
            }
        },
        _ => Reaction { connection, bus, frames: Seq::empty() },
    }
}

/// One step of a connection on the chunk `data`, whose bytes read as the
/// text `text`; `token` names a message that the step stores.
///
/// The first rule that applies is taken: protocol header, SASL-INIT, Open,
/// Begin, Attach, Transfer; any other chunk on a link to a subscription
/// hands out what waits there. Each rule applies only where the stage
/// before it was reached, so that the stages come in this order.
pub open spec fn react(
    connection: ConnectionView,
    bus: BusView,
    data: Seq<u8>,
    text: Seq<char>,
    token: Seq<char>,
) -> Reaction {
    if !connection.connection_established && is_protocol_header(data) {
        Reaction {
            connection: ConnectionView { connection_established: true, ..connection },
            bus,
            frames: seq![sasl_mechanisms_frame()],
        }
    } else if connection.connection_established && !connection.sasl_negotiated
        && has_performative(data, 0x41) {
        Reaction {
            connection: ConnectionView { sasl_negotiated: true, ..connection },
            bus,
            frames: seq![sasl_outcome_frame(0)],
        }
    } else if connection.sasl_negotiated && !connection.session_begun && has_performative(
        data,
        0x10,
    ) {
        Reaction { connection, bus, frames: seq![open_frame()] }
    } else if connection.sasl_negotiated && !connection.session_begun && has_performative(
        data,
        0x11,
    ) {
        Reaction {
            connection: ConnectionView { session_begun: true, ..connection },
            bus,
            frames: seq![begin_frame()],
        }
    } else if connection.session_begun && !connection.link_established && has_performative(
        data,
        0x12,
    ) {
        Reaction {
            connection: ConnectionView {
                link_established: true,
                client_info: entity_of_text(text),
                ..connection
            },
            bus,
            frames: seq![attach_frame(), flow_frame(100)],
        }
    } else if connection.link_established && has_performative(data, 0x14) {
        route(connection, bus, data, token)
    } else if connection.link_established {
        flush(connection, bus)
    } else {
        Reaction { connection, bus, frames: Seq::empty() }
    }
}

/// Whether a step on the chunk `data` routes a payload to a queue or a
/// topic, so that a message gets an id: the link stands and goes to a
/// queue or a topic, and the chunk is a transfer with a whole header.
pub open spec fn routes_payload(connection: ConnectionView, data: Seq<u8>) -> bool {
    &&& connection.link_established
    &&& has_performative(data, 0x14)
    &&& message_data(data) is Some
    &&& connection.client_info matches Some(entity)
    &&& (entity is Queue || entity is Topic)
}

/// Whether `token` is the token of a step on `data`: the text of a fresh
/// UUID where the step routes a payload, and the empty text where it
/// does not.
pub open spec fn is_token_for(connection: ConnectionView, data: Seq<u8>, token: Seq<char>) -> bool {
    if routes_payload(connection, data) {
        is_uuid_text(token)
    } else {
        token == Seq::<char>::empty()
    }
}

/// A step that routes no payload does not look at its token.
pub proof fn lemma_token_is_read_for_a_payload(
    connection: ConnectionView,
    bus: BusView,
    data: Seq<u8>,
    text: Seq<char>,
    a: Seq<char>,
    b: Seq<char>,
)
    requires
        !routes_payload(connection, data),
    ensures
        react(connection, bus, data, text, a) == react(connection, bus, data, text, b),
{
}

/// Whether the stages of a connection were reached in their order: no
/// SASL without the protocol header, no session without SASL, no link
/// without a session, and no entity without a link.
pub open spec fn in_sequence(connection: ConnectionView) -> bool {
    &&& connection.sasl_negotiated ==> connection.connection_established
    &&& connection.session_begun ==> connection.sasl_negotiated
    &&& connection.link_established ==> connection.session_begun
    &&& connection.client_info is Some ==> connection.link_established
}

/// The stages of a connection come in their order, and a stage that was
/// reached stays reached.
pub proof fn lemma_stages_in_sequence(
    connection: ConnectionView,
    bus: BusView,
    data: Seq<u8>,
    text: Seq<char>,
    token: Seq<char>,
)
    requires
        in_sequence(connection),
    ensures
        in_sequence(fresh_connection()),
        in_sequence(react(connection, bus, data, text, token).connection),
        connection.connection_established ==> react(
            connection,
            bus,
            data,
            text,
            token,
        ).connection.connection_established,
        connection.sasl_negotiated ==> react(
            connection,
            bus,
            data,
            text,
            token,
        ).connection.sasl_negotiated,
        connection.session_begun ==> react(
            connection,
            bus,
            data,
            text,
            token,
        ).connection.session_begun,
        connection.link_established ==> react(
            connection,
            bus,
            data,
            text,
            token,
        ).connection.link_established,
{
}

/// The frames that the emulator writes for a transfer or for a
/// subscription are dispositions and transfers: none of them is the
/// answer of a stage.
proof fn lemma_routed_frames(connection: ConnectionView, bus: BusView, data: Seq<u8>, token: Seq<char>)
    ensures
        route(connection, bus, data, token).frames.len() > 0 ==> route(
            connection,
            bus,
            data,
            token,
        ).frames[0].len() == 28 && route(connection, bus, data, token).frames[0][10] == 0x15,
        flush(connection, bus).frames.len() > 0 ==> flush(connection, bus).frames[0].len() >= 20
            && flush(connection, bus).frames[0][10] == 0x14,
{
    let routed = route(connection, bus, data, token).frames;
    if routed.len() > 0 {
        let id = acknowledged_id(data);
        assert(routed[0] == disposition_frame(id));
        assert(disposition_frame(id).len() == 28);
        assert(disposition_frame(id)[10] == 0x15);
    }
    let flushed = flush(connection, bus).frames;
    if flushed.len() > 0 {
        match connection.client_info {
            Some(Entity::Subscription(address)) => match subscription_parts(address) {
                Some((topic, sub)) => {
                    let waiting = bus.pending(topic, sub);
                    assert(flushed[0] == crate::amqp::frames::transfer_frame(1, waiting[0].body));
                    crate::amqp::frames::lemma_transfer_round_trip(1, waiting[0].body);
                    assert(flushed[0][10] == 0x14);
                },
                None => {},
            },
            _ => {},
        }
    }
}

/// Each stage is answered only where the stage before it was reached and
/// the stage itself was not, and the answer marks the stage as reached.
/// So the answers to the protocol header, to SASL-INIT, to Begin and to
/// Attach are each written once at most on a connection, and in this
/// order; Open is answered only between SASL and Begin.
pub proof fn lemma_stage_answers(
    connection: ConnectionView,
    bus: BusView,
    data: Seq<u8>,
    text: Seq<char>,
    token: Seq<char>,
)
    ensures
        ({
            let step = react(connection, bus, data, text, token);
            &&& step.frames == seq![sasl_mechanisms_frame()] ==> !connection.connection_established
                && step.connection.connection_established
            &&& step.frames == seq![sasl_outcome_frame(0)] ==> connection.connection_established
                && !connection.sasl_negotiated && step.connection.sasl_negotiated
            &&& step.frames == seq![open_frame()] ==> connection.sasl_negotiated
                && !connection.session_begun && step.connection == connection
            &&& step.frames == seq![begin_frame()] ==> connection.sasl_negotiated
                && !connection.session_begun && step.connection.session_begun
            &&& step.frames == seq![attach_frame(), flow_frame(100)] ==> connection.session_begun
                && !connection.link_established && step.connection.link_established
        }),
{
    let step = react(connection, bus, data, text, token);
    lemma_routed_frames(connection, bus, data, token);
    assert(sasl_mechanisms_frame().len() == 24 && sasl_mechanisms_frame()[10] == 0x40);
    assert(sasl_outcome_frame(0).len() == 20 && sasl_outcome_frame(0)[10] == 0x44);
    assert(open_frame().len() == 24 && open_frame()[10] == 0x10);
    assert(begin_frame().len() == 28 && begin_frame()[10] == 0x11);
    assert(attach_frame().len() == 32 && attach_frame()[10] == 0x12);
    if step.frames == seq![sasl_mechanisms_frame()] {
        assert(step.frames[0] == sasl_mechanisms_frame());
    }
    if step.frames == seq![sasl_outcome_frame(0)] {
        assert(step.frames[0] == sasl_outcome_frame(0));
    }
    if step.frames == seq![open_frame()] {
        assert(step.frames[0] == open_frame());
    }
    if step.frames == seq![begin_frame()] {
        assert(step.frames[0] == begin_frame());
    }
    if step.frames == seq![attach_frame(), flow_frame(100)] {
        assert(step.frames[0] == attach_frame());
        assert(step.frames.len() == 2);
    }
}

/// One frame as the emulator takes it: its bytes, the bytes read as
/// text, and the token for the id of a message that it may carry.
pub struct FrameInput {
    pub data: Seq<u8>,
    pub text: Seq<char>,
    pub token: Seq<char>,
}

/// The connection and the bus after the frames `inputs` were taken one
/// after the other, with what was written for the last of them.
pub open spec fn react_all(connection: ConnectionView, bus: BusView, inputs: Seq<FrameInput>) -> Reaction
    decreases inputs.len(),
{
    if inputs.len() == 0 {
        Reaction { connection, bus, frames: Seq::empty() }
    } else {
        let before = react_all(connection, bus, inputs.drop_last());
        react(before.connection, before.bus, inputs.last().data, inputs.last().text, inputs.last().token)
    }
}

/// The stage that `frames` answer: 1 for the protocol header, 2 for
/// SASL-INIT, 3 for Begin and 4 for Attach; 0 where they answer none of
/// these.
pub open spec fn stage_answered(frames: Seq<Seq<u8>>) -> int {
    if frames == seq![sasl_mechanisms_frame()] {
        1
    } else if frames == seq![sasl_outcome_frame(0)] {
        2
    } else if frames == seq![begin_frame()] {
        3
    } else if frames == seq![attach_frame(), flow_frame(100)] {
        4
    } else {
        0
    }
}

/// The number of the last stage that a connection has reached.
pub open spec fn stage_reached(connection: ConnectionView) -> int {
    if connection.link_established {
        4
    } else if connection.session_begun {
        3
    } else if connection.sasl_negotiated {
        2
    } else if connection.connection_established {
        1
    } else {
        0
    }
}

/// Along a run of frames the stages stay in their order and the stage
/// reached never falls.
pub proof fn lemma_run_in_sequence(
    connection: ConnectionView,
    bus: BusView,
    inputs: Seq<FrameInput>,
    k: int,
    m: int,
)
    requires
        in_sequence(connection),
        0 <= k <= m <= inputs.len(),
    ensures
        in_sequence(react_all(connection, bus, inputs.take(m)).connection),
        stage_reached(react_all(connection, bus, inputs.take(k)).connection) <= stage_reached(
            react_all(connection, bus, inputs.take(m)).connection,
        ),
    decreases m,
{
    if m > 0 {
        let prefix = inputs.take(m);
        assert(prefix.drop_last() =~= inputs.take(m - 1));
        let before = react_all(connection, bus, inputs.take(m - 1));
        lemma_run_in_sequence(connection, bus, inputs, if k < m { k } else { m - 1 }, m - 1);
        lemma_stages_in_sequence(
            before.connection,
            before.bus,
            prefix.last().data,
            prefix.last().text,
            prefix.last().token,
        );
    }
}

/// On a connection the answers to the stages are written in the order of
/// the stages, and each of them once at most: of two answers to a stage,
/// the later one answers a later stage.
pub proof fn lemma_stage_answers_in_order(
    connection: ConnectionView,
    bus: BusView,
    inputs: Seq<FrameInput>,
    i: int,
    j: int,
)
    requires
        in_sequence(connection),
        0 <= i < j < inputs.len(),
        stage_answered(react_all(connection, bus, inputs.take(i + 1)).frames) > 0,
        stage_answered(react_all(connection, bus, inputs.take(j + 1)).frames) > 0,
    ensures
        stage_answered(react_all(connection, bus, inputs.take(i + 1)).frames) < stage_answered(
            react_all(connection, bus, inputs.take(j + 1)).frames,
        ),
{
    assert(inputs.take(i + 1).drop_last() =~= inputs.take(i));
    assert(inputs.take(j + 1).drop_last() =~= inputs.take(j));
    lemma_run_in_sequence(connection, bus, inputs, i, i);
    lemma_run_in_sequence(connection, bus, inputs, i + 1, j);
    let first = react_all(connection, bus, inputs.take(i));
    let second = react_all(connection, bus, inputs.take(j));
    lemma_stage_answers(first.connection, first.bus, inputs[i].data, inputs[i].text, inputs[i].token);
    lemma_stage_answers(
        second.connection,
        second.bus,
        inputs[j].data,
        inputs[j].text,
        inputs[j].token,
    );
    lemma_stages_in_sequence(
        first.connection,
        first.bus,
        inputs[i].data,
        inputs[i].text,
        inputs[i].token,
    );
    assert(inputs.take(i + 1).last() == inputs[i]);
    assert(inputs.take(j + 1).last() == inputs[j]);
    let answered = stage_answered(react_all(connection, bus, inputs.take(i + 1)).frames);
    assert(stage_reached(react_all(connection, bus, inputs.take(i + 1)).connection) == answered);
}

/// A list that holds one frame.
fn one_frame(frame: Vec<u8>) -> (frames: Vec<Vec<u8>>)
    ensures
        frames_view(frames@) == seq![frame@],
{
    let mut frames: Vec<Vec<u8>> = Vec::new();
    frames.push(frame);
    assert(frames_view(frames@) =~= seq![frame@]);
    frames
}

/// `first` followed by the frames of `rest`.
fn frame_then(first: Vec<u8>, rest: Vec<Vec<u8>>) -> (frames: Vec<Vec<u8>>)
    ensures
        frames_view(frames@) == seq![first@] + frames_view(rest@),
{
    let mut frames: Vec<Vec<u8>> = Vec::new();
    frames.push(first);
    let mut rest = rest;
    let ghost tail = rest@;
    frames.append(&mut rest);
    assert(frames_view(frames@) =~= seq![first@] + frames_view(tail));
    frames
}

/// No frames.
fn no_frames() -> (frames: Vec<Vec<u8>>)
    ensures
        frames_view(frames@) == Seq::<Seq<u8>>::empty(),
{
    let frames: Vec<Vec<u8>> = Vec::new();
    assert(frames_view(frames@) =~= Seq::<Seq<u8>>::empty());
    frames
}

impl AmqpConnection {
    /// A connection on which nothing has been received.
    pub fn new() -> (connection: Self)
        ensures
            connection@ == fresh_connection(),
    {
        AmqpConnection {
            connection_established: false,
            sasl_negotiated: false,
            session_begun: false,
            link_established: false,
            client_info: None,
        }
    }

    /// The bytes to write when the connection opens.
    pub fn greeting() -> (header: Vec<u8>)
        ensures
            header@ == protocol_header(),
    {
        let mut header: Vec<u8> = Vec::new();
        header.push(0x41);
        header.push(0x4D);
        header.push(0x51);
        header.push(0x50);
        header.push(0x00);
        header.push(0x01);
        header.push(0x00);
        header.push(0x00);
        assert(header@ =~= protocol_header());
        header
    }

    /// Whether a link is attached.
    pub fn is_attached(&self) -> (attached: bool)
        ensures
            attached == self@.link_established,
    {
        self.link_established
    }

    /// Hands out what waits for the subscription that the connection is
    /// attached to. This is the step on a read that timed out.
    pub fn on_timeout(&self, bus: &mut BusState) -> (frames: Vec<Vec<u8>>)
        requires
            old(bus).wf(),
        ensures
            final(bus).wf(),
            final(bus)@ == flush(self@, old(bus)@).bus,
            frames_view(frames@) == flush(self@, old(bus)@).frames,
    {
        match &self.client_info {
            Some(EntityType::Subscription(address)) => {
                match parse_subscription_name(address.as_str()) {
                    Some((topic, sub)) => bus.send_subscription_messages(
                        topic.as_str(),
                        sub.as_str(),
                    ),
                    None => no_frames(),
                }
            },
            _ => no_frames(),
        }
    }

    /// Routes a transfer to the bus.
    fn on_transfer(&self, frame_data: &[u8], bus: &mut BusState, token: &str) -> (frames: Vec<
        Vec<u8>,
    >)
        requires
            old(bus).wf(),
        ensures
            final(bus).wf(),
            final(bus)@ == route(self@, old(bus)@, frame_data@, token@).bus,
            frames_view(frames@) == route(self@, old(bus)@, frame_data@, token@).frames,
    {
        match &self.client_info {
            Some(EntityType::Queue(address)) => {
                match extract_message_data(frame_data) {
                    Some(payload) => {
                        let name = without_prefix(address.as_str(), "queue:");
                        bus.process_queue_message_as(name.as_str(), payload.as_slice(), token);
                        one_frame(create_disposition_frame(frame_data))
                    },
                    None => no_frames(),
                }
            },
            Some(EntityType::Topic(address)) => {
                match extract_message_data(frame_data) {
                    Some(payload) => {
                        let name = without_prefix(address.as_str(), "topic:");
                        bus.process_topic_message_as(name.as_str(), payload.as_slice(), token);
                        let pending = bus.send_messages_to_subscriptions(name.as_str());
                        frame_then(create_disposition_frame(frame_data), pending)
                    },
                    None => no_frames(),
                }
            },
            _ => no_frames(),
        }
    }

    /// The token for a step on `frame_data`: a fresh id where the step
    /// routes a payload, for only then is a message stored.
    fn token_for(&self, frame_data: &[u8]) -> (token: String)
        ensures
            is_token_for(self@, frame_data@, token@),
    {
        let to_entity = match &self.client_info {
            Some(EntityType::Queue(_)) => true,
            Some(EntityType::Topic(_)) => true,
            _ => false,
        };
        if self.link_established && to_entity && frame_data.len() >= 20 && is_transfer_frame(
            frame_data,
        ) {
            random_uuid()
        } else {
            String::new()
        }
    }

    /// One step on the chunk `frame_data`, given the text that its bytes
    /// read as and the token for a message that the step stores.
    pub fn on_frame_as(
        &mut self,
        frame_data: &[u8],
        text: &str,
        token: &str,
        bus: &mut BusState,
    ) -> (frames: Vec<Vec<u8>>)
        requires
            old(bus).wf(),
        ensures
            final(bus).wf(),
            final(self)@ == react(old(self)@, old(bus)@, frame_data@, text@, token@).connection,
            final(bus)@ == react(old(self)@, old(bus)@, frame_data@, text@, token@).bus,
            frames_view(frames@) == react(old(self)@, old(bus)@, frame_data@, text@, token@).frames,
    {
        if !self.connection_established && frame_data.len() >= 8 && frame_data[0] == 0x41
            && frame_data[1] == 0x4D && frame_data[2] == 0x51 && frame_data[3] == 0x50 {
            self.connection_established = true;
            return one_frame(create_sasl_mechanisms_frame());
        }
        if self.connection_established && !self.sasl_negotiated && is_sasl_init_frame(frame_data) {
            self.sasl_negotiated = true;
            return one_frame(create_sasl_outcome_frame(true));
        }
        if self.sasl_negotiated && !self.session_begun && is_open_frame(frame_data) {
            return one_frame(create_open_response());
        }
        if self.sasl_negotiated && !self.session_begun && is_begin_frame(frame_data) {
            self.session_begun = true;
            return one_frame(create_begin_response());
        }
        if self.session_begun && !self.link_established && is_attach_frame(frame_data) {
            self.link_established = true;
            self.client_info = entity_in_text(text);
            let flow = one_frame(create_flow_frame(LINK_CREDIT));
            let frames = frame_then(create_attach_response(frame_data), flow);
            assert(frames_view(frames@) =~= seq![attach_frame(), flow_frame(100)]);
            return frames;
        }
        if self.link_established && is_transfer_frame(frame_data) {
            return self.on_transfer(frame_data, bus, token);
        }
        if self.link_established {
            return self.on_timeout(bus);
        }
        no_frames()
    }

    /// One step on the chunk `frame_data`. The frame is read as text by
    /// lossy UTF-8 decoding. A fresh id is drawn only where the step
    /// routes a payload, for the message that is stored.
    pub fn on_frame(&mut self, frame_data: &[u8], bus: &mut BusState) -> (frames: Vec<Vec<u8>>)
        requires
            old(bus).wf(),
        ensures
            final(bus).wf(),
            exists|token: Seq<char>|
                {
                    let step = #[trigger] react(
                        old(self)@,
                        old(bus)@,
                        frame_data@,
                        lossy_text(frame_data@),
                        token,
                    );
                    &&& is_token_for(old(self)@, frame_data@, token)
                    &&& final(self)@ == step.connection
                    &&& final(bus)@ == step.bus
                    &&& frames_view(frames@) == step.frames
                },
    {
        let text = utf8_lossy(frame_data);
        let token = self.token_for(frame_data);
        let frames = self.on_frame_as(frame_data, text.as_str(), token.as_str(), bus);
        proof {
            let step = react(old(self)@, old(bus)@, frame_data@, lossy_text(frame_data@), token@);
            assert(is_token_for(old(self)@, frame_data@, token@) && self@ == step.connection
                && bus@ == step.bus && frames_view(frames@) == step.frames);
        }
        frames
    }
}

/// What the stream of a connection did.
#[derive(Debug)]
pub enum StreamEvent {
    /// Bytes were read; none means that the client closed the connection.
    Data(Vec<u8>),
    /// The read failed; the text says why.
    Failed(String),
    /// Nothing was read for thirty seconds.
    TimedOut,
}

/// Seconds after which a read times out.
pub const READ_TIMEOUT_SECS: u64 = 30;

/// Number of bytes that are read at once.
pub const READ_BUFFER_LEN: usize = 8192;

/// What the driver of a connection does about an event of its stream.
#[derive(Debug)]
pub struct StreamStep {
    /// The frames to write, in order. A write that fails is logged and the
    /// connection goes on.
    pub frames: Vec<Vec<u8>>,
    /// Whether the connection ends, and how.
    pub finished: Option<Result<(), ServerError>>,
}

/// The message of a protocol header that could not be written.
pub open spec fn header_fault(detail: Seq<char>) -> Seq<char> {
    "Failed to send protocol header: "@ + detail
}

/// The message of a read that failed.
pub open spec fn read_fault(detail: Seq<char>) -> Seq<char> {
    "Failed to read from stream: "@ + detail
}

/// The error that ends a connection whose protocol header could not be
/// written.
pub fn header_failed(detail: &str) -> (error: ServerError)
    ensures
        error matches ServerError::RuntimeError(m) && m@ == header_fault(detail@),
{
    ServerError::RuntimeError(crate::text::concat2("Failed to send protocol header: ", detail))
}

impl AmqpConnection {
    /// One step on an event of the stream, given the text that the bytes
    /// read as and the token for a message that the step stores. The end
    /// of the stream ends the connection in peace, a failed read ends it
    /// with a runtime error, and a timeout hands out what waits.
    pub fn on_stream_event_as(
        &mut self,
        event: StreamEvent,
        text: &str,
        token: &str,
        bus: &mut BusState,
    ) -> (step: StreamStep)
        requires
            old(bus).wf(),
        ensures
            final(bus).wf(),
            match event {
                StreamEvent::Data(data) => if data@.len() == 0 {
                    &&& step.finished matches Some(Ok(()))
                    &&& frames_view(step.frames@) == Seq::<Seq<u8>>::empty()
                    &&& final(self)@ == old(self)@
                    &&& final(bus)@ == old(bus)@
                } else {
                    let answer = react(old(self)@, old(bus)@, data@, text@, token@);
                    &&& step.finished is None
                    &&& frames_view(step.frames@) == answer.frames
                    &&& final(self)@ == answer.connection
                    &&& final(bus)@ == answer.bus
                },
                StreamEvent::Failed(detail) => {
                    &&& step.finished matches Some(Err(ServerError::RuntimeError(m))) && m@
                        == read_fault(detail@)
                    &&& frames_view(step.frames@) == Seq::<Seq<u8>>::empty()
                    &&& final(self)@ == old(self)@
                    &&& final(bus)@ == old(bus)@
                },
                StreamEvent::TimedOut => {
                    &&& step.finished is None
                    &&& frames_view(step.frames@) == flush(old(self)@, old(bus)@).frames
                    &&& final(self)@ == old(self)@
                    &&& final(bus)@ == flush(old(self)@, old(bus)@).bus
                },
            },
    {
        match event {
            StreamEvent::Data(data) => {
                if data.len() == 0 {
                    StreamStep { frames: no_frames(), finished: Some(Ok(())) }
                } else {
                    let frames = self.on_frame_as(data.as_slice(), text, token, bus);
                    StreamStep { frames, finished: None }
                }
            },
            StreamEvent::Failed(detail) => StreamStep {
                frames: no_frames(),
                finished: Some(
                    Err(
                        ServerError::RuntimeError(
                            crate::text::concat2("Failed to read from stream: ", detail.as_str()),
                        ),
                    ),
                ),
            },
            StreamEvent::TimedOut => {
                let frames = self.on_timeout(bus);
                StreamStep { frames, finished: None }
            },
        }
    }
}

/// One step on an event of the stream. Bytes are read as text by lossy
/// UTF-8 decoding. A fresh id is drawn only where the step routes a
/// payload, for the message that is stored.
pub fn handle_amqp_connection(
    connection: &mut AmqpConnection,
    event: StreamEvent,
    bus: &mut BusState,
) -> (step: StreamStep)
    requires
        old(bus).wf(),
    ensures
        final(bus).wf(),
        match event {
            StreamEvent::Data(data) => if data@.len() == 0 {
                &&& step.finished matches Some(Ok(()))
                &&& frames_view(step.frames@) == Seq::<Seq<u8>>::empty()
                &&& final(connection)@ == old(connection)@
                &&& final(bus)@ == old(bus)@
            } else {
                exists|token: Seq<char>|
                    {
                        let answer = #[trigger] react(
                            old(connection)@,
                            old(bus)@,
                            data@,
                            lossy_text(data@),
                            token,
                        );
                        &&& is_token_for(old(connection)@, data@, token)
                        &&& step.finished is None
                        &&& frames_view(step.frames@) == answer.frames
                        &&& final(connection)@ == answer.connection
                        &&& final(bus)@ == answer.bus
                    }
            },
            StreamEvent::Failed(detail) => {
                &&& step.finished matches Some(Err(ServerError::RuntimeError(m))) && m@
                    == read_fault(detail@)
                &&& frames_view(step.frames@) == Seq::<Seq<u8>>::empty()
                &&& final(connection)@ == old(connection)@
                &&& final(bus)@ == old(bus)@
            },
            StreamEvent::TimedOut => {
                &&& step.finished is None
                &&& frames_view(step.frames@) == flush(old(connection)@, old(bus)@).frames
                &&& final(connection)@ == old(connection)@
                &&& final(bus)@ == flush(old(connection)@, old(bus)@).bus
            },
        },
{
    let text = match &event {
        StreamEvent::Data(data) => utf8_lossy(data.as_slice()),
        _ => String::new(),
    };
    let token = match &event {
        StreamEvent::Data(data) => connection.token_for(data.as_slice()),
        _ => String::new(),
    };
    let ghost given = event;
    let step = connection.on_stream_event_as(event, text.as_str(), token.as_str(), bus);
    proof {
        match given {
            StreamEvent::Data(data) => {
                if data@.len() != 0 {
                    let answer = react(
                        old(connection)@,
                        old(bus)@,
                        data@,
                        lossy_text(data@),
                        token@,
                    );
                    assert(is_token_for(old(connection)@, data@, token@) && step.finished is None && frames_view(
                        step.frames@,
                    ) == answer.frames && connection@ == answer.connection && bus@ == answer.bus);
                }
            },
            _ => {},
        }
    }
    step
}

/// How a connection stands: open, closed by the client, or ended by a
/// read that failed, with the message of the error.
pub enum Ending {
    Open,
    Closed,
    Failed(Seq<char>),
}

/// A connection from its opening on: its state, the bus, everything that
/// was written to the client, in order, and how the connection stands.
pub struct Talk {
    pub connection: ConnectionView,
    pub bus: BusView,
    pub written: Seq<Seq<u8>>,
    pub ending: Ending,
}

/// Whether `finished`, as a step gives it, says that the connection
/// stands as `ending` has it. A read that failed is a runtime error.
pub open spec fn ends_as(finished: Option<Result<(), ServerError>>, ending: Ending) -> bool {
    match ending {
        Ending::Open => finished is None,
        Ending::Closed => finished matches Some(Ok(())),
        Ending::Failed(text) => finished matches Some(Err(ServerError::RuntimeError(m))) && m@
            == text,
    }
}

/// An open connection after one more event of its stream, where a
/// message that the event stores gets its id from `token`: the event is
/// taken as [`AmqpConnection::on_stream_event_as`] takes it.
#[verifier::opaque]
pub open spec fn talk_step(before: Talk, event: StreamEvent, token: Seq<char>) -> Talk {
    match event {
        StreamEvent::Data(data) => if data@.len() == 0 {
            Talk { ending: Ending::Closed, ..before }
        } else {
            let answer = react(before.connection, before.bus, data@, lossy_text(data@), token);
            Talk {
                connection: answer.connection,
                bus: answer.bus,
                written: before.written + answer.frames,
                ending: Ending::Open,
            }
        },
        StreamEvent::Failed(detail) => Talk { ending: Ending::Failed(read_fault(detail@)), ..before },
        StreamEvent::TimedOut => {
            let answer = flush(before.connection, before.bus);
            Talk { bus: answer.bus, written: before.written + answer.frames, ..before }
        },
    }
}

/// A connection after the events `events` of its stream, where the
/// message that event `i` stores gets its id from `tokens[i]`. The
/// protocol header is written before anything is read, and what follows
/// the event that ends the connection is not looked at.
pub open spec fn talk(bus: BusView, events: Seq<StreamEvent>, tokens: Seq<Seq<char>>) -> Talk
    decreases events.len(),
{
    if events.len() == 0 {
        Talk {
            connection: fresh_connection(),
            bus,
            written: seq![protocol_header()],
            ending: Ending::Open,
        }
    } else {
        let before = talk(bus, events.drop_last(), tokens);
        if before.ending is Open {
            talk_step(before, events.last(), tokens[events.len() - 1])
        } else {
            before
        }
    }
}

/// A connection reads the token of an event only.
proof fn lemma_talk_reads_its_tokens(
    bus: BusView,
    events: Seq<StreamEvent>,
    a: Seq<Seq<char>>,
    b: Seq<Seq<char>>,
)
    requires
        forall|k: int| 0 <= k < events.len() ==> a[k] == b[k],
    ensures
        talk(bus, events, a) == talk(bus, events, b),
    decreases events.len(),
{
    if events.len() > 0 {
        lemma_talk_reads_its_tokens(bus, events.drop_last(), a, b);
    }
}

/// A connection that has ended stays as it is.
proof fn lemma_talk_stays_ended(
    bus: BusView,
    events: Seq<StreamEvent>,
    tokens: Seq<Seq<char>>,
    k: int,
)
    requires
        0 <= k <= events.len(),
        !(talk(bus, events.take(k), tokens).ending is Open),
    ensures
        talk(bus, events, tokens) == talk(bus, events.take(k), tokens),
    decreases events.len(),
{
    if k < events.len() {
        assert(events.drop_last().take(k) =~= events.take(k));
        lemma_talk_stays_ended(bus, events.drop_last(), tokens, k);
    } else {
        assert(events.take(k) =~= events);
    }
}

/// One more event on an open connection is one more step.
proof fn lemma_talk_grows(
    bus: BusView,
    events: Seq<StreamEvent>,
    tokens: Seq<Seq<char>>,
    i: int,
    token: Seq<char>,
)
    requires
        0 <= i < events.len(),
        tokens.len() == i,
        talk(bus, events.take(i), tokens).ending is Open,
    ensures
        talk(bus, events.take(i + 1), tokens.push(token)) == talk_step(
            talk(bus, events.take(i), tokens),
            events[i],
            token,
        ),
{
    assert(events.take(i + 1).drop_last() =~= events.take(i));
    lemma_talk_reads_its_tokens(bus, events.take(i), tokens, tokens.push(token));
}

/// The protocol header is the first thing written on a connection,
/// whatever its stream does.
pub proof fn lemma_talk_begins_with_the_header(
    bus: BusView,
    events: Seq<StreamEvent>,
    tokens: Seq<Seq<char>>,
)
    ensures
        talk(bus, events, tokens).written.len() > 0,
        talk(bus, events, tokens).written[0] == protocol_header(),
    decreases events.len(),
{
    reveal(talk_step);
    if events.len() > 0 {
        lemma_talk_begins_with_the_header(bus, events.drop_last(), tokens);
    }
}

/// Takes one event on an open connection, with a fresh id where the
/// event routes a payload, and puts what it writes behind `written`.
fn take_event(
    connection: &mut AmqpConnection,
    event: StreamEvent,
    bus: &mut BusState,
    written: &mut Vec<Vec<u8>>,
) -> (out: (Option<Result<(), ServerError>>, Ghost<Seq<char>>))
    requires
        old(bus).wf(),
    ensures
        final(bus).wf(),
        ({
            let step = talk_step(
                (Talk {
                    connection: old(connection)@,
                    bus: old(bus)@,
                    written: frames_view(old(written)@),
                    ending: Ending::Open,
                }),
                event,
                out.1@,
            );
            &&& step.connection == final(connection)@
            &&& step.bus == final(bus)@
            &&& step.written == frames_view(final(written)@)
            &&& ends_as(out.0, step.ending)
        }),
{
    reveal(talk_step);
    let text = match &event {
        StreamEvent::Data(data) => utf8_lossy(data.as_slice()),
        _ => String::new(),
    };
    let token = match &event {
        StreamEvent::Data(data) => connection.token_for(data.as_slice()),
        _ => String::new(),
    };
    let ghost so_far = written@;
    let StreamStep { frames, finished } = connection.on_stream_event_as(
        event,
        text.as_str(),
        token.as_str(),
        bus,
    );
    let mut frames = frames;
    let ghost answered = frames@;
    written.append(&mut frames);
    proof {
        assert(frames_view(written@) =~= frames_view(so_far) + frames_view(answered));
    }
    (finished, Ghost(token@))
}

/// Serves one connection from its opening to its end over the events of
/// its stream: writes the protocol header, takes the events one after the
/// other, with a fresh id for each payload that is routed, and stops at
/// the event that ends the connection. The result is everything
/// written, in order, and how the connection ended, if it did.
pub fn run_connection(events: Vec<StreamEvent>, bus: &mut BusState) -> (out: (
    Vec<Vec<u8>>,
    Option<Result<(), ServerError>>,
))
    requires
        old(bus).wf(),
    ensures
        final(bus).wf(),
        out.0@.len() > 0,
        out.0@[0]@ == protocol_header(),
        exists|tokens: Seq<Seq<char>>|
            {
                let all = #[trigger] talk(old(bus)@, events@, tokens);
                &&& frames_view(out.0@) == all.written
                &&& final(bus)@ == all.bus
                &&& ends_as(out.1, all.ending)
            },
{
    let ghost all = events@;
    let ghost mut tokens: Seq<Seq<char>> = Seq::empty();
    let count = events.len();
    let mut rest = events;
    let mut connection = AmqpConnection::new();
    let mut written = one_frame(AmqpConnection::greeting());
    let mut i: usize = 0;
    while rest.len() > 0
        invariant
            bus.wf(),
            all == events@,
            all.len() == count,
            rest@ == all.skip(i as int),
            i + rest@.len() == all.len(),
            tokens.len() == i,
            talk(old(bus)@, all.take(i as int), tokens) == (Talk {
                connection: connection@,
                bus: bus@,
                written: frames_view(written@),
                ending: Ending::Open,
            }),
        decreases rest@.len(),
    {
        let ghost before = talk(old(bus)@, all.take(i as int), tokens);
        let event = rest.remove(0);
        let ghost given = event;
        let (finished, Ghost(token)) = take_event(&mut connection, event, bus, &mut written);
        proof {
            assert(given == all[i as int]);
            assert(rest@ =~= all.skip(i + 1));
            lemma_talk_grows(old(bus)@, all, tokens, i as int, token);
            tokens = tokens.push(token);
            let after = talk(old(bus)@, all.take(i + 1), tokens);
            assert(after == talk_step(before, given, token));
            assert(after.connection == connection@);
            assert(after.bus == bus@);
            assert(after.written == frames_view(written@));
            assert(ends_as(finished, after.ending));
        }
        match finished {
            Some(result) => {
                proof {
                    assert(!(talk(old(bus)@, all.take(i + 1), tokens).ending is Open));
                    lemma_talk_stays_ended(old(bus)@, all, tokens, i + 1);
                    lemma_talk_begins_with_the_header(old(bus)@, all, tokens);
                    assert(frames_view(written@)[0] == written@[0]@);
                }
                return (written, Some(result));
            },
            None => {},
        }
        i += 1;
    }
    proof {
        assert(all.take(i as int) =~= all);
        lemma_talk_begins_with_the_header(old(bus)@, all, tokens);
        assert(frames_view(written@)[0] == written@[0]@);
    }
    (written, None)
}

} // verus!
