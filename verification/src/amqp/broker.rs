//! The state of the emulated bus: queues, and topics with their
//! subscriptions, each holding the messages that wait for a receiver.

use crate::amqp::frames::{create_transfer_frame, transfer_frame};
use crate::outside::{is_uuid_text, random_uuid};
use crate::registry::{Entry, Registry};
use crate::text::concat2;
use vstd::prelude::*;

verus! {

/// A message at rest in a queue or a subscription.
#[derive(Debug, Clone)]
pub struct ServiceBusMessage {
    pub message_id: Option<String>,
    pub body: Vec<u8>,
    pub properties: Vec<(String, String)>,
    pub content_type: Option<String>,
    pub subject: Option<String>,
}

/// What a message holds, as plain values.
pub struct MessageView {
    pub message_id: Option<Seq<char>>,
    pub body: Seq<u8>,
    pub properties: Seq<(Seq<char>, Seq<char>)>,
    pub content_type: Option<Seq<char>>,
    pub subject: Option<Seq<char>>,
}

/// The view of an optional text.
pub open spec fn text_view(s: Option<String>) -> Option<Seq<char>> {
    match s {
        Some(s) => Some(s@),
        None => None,
    }
}

impl View for ServiceBusMessage {
    type V = MessageView;

    open spec fn view(&self) -> MessageView {
        MessageView {
            message_id: text_view(self.message_id),
            body: self.body@,
            properties: self.properties@.map_values(|p: (String, String)| (p.0@, p.1@)),
            content_type: text_view(self.content_type),
            subject: text_view(self.subject),
        }
    }
}

/// The message that the bus stores for a received payload: its id is
/// `msg-` and the given token, its content type is
/// `application/octet-stream`, and it has neither properties nor subject.
pub open spec fn stored_message(data: Seq<u8>, token: Seq<char>) -> MessageView {
    MessageView {
        message_id: Some("msg-"@ + token),
        body: data,
        properties: Seq::empty(),
        content_type: Some("application/octet-stream"@),
        subject: None,
    }
}

/// The views of the messages of a list.
pub open spec fn messages_view(messages: Seq<ServiceBusMessage>) -> Seq<MessageView> {
    messages.map_values(|m: ServiceBusMessage| m@)
}

impl ServiceBusMessage {
    /// The message that the bus stores for a payload, with `token` behind
    /// `msg-` as its id.
    pub fn stored(data: &[u8], token: &str) -> (message: Self)
        ensures
            message@ == stored_message(data@, token@),
    {
        let mut body: Vec<u8> = Vec::new();
        body.extend_from_slice(data);
        let properties: Vec<(String, String)> = Vec::new();
        let message = ServiceBusMessage {
            message_id: Some(concat2("msg-", token)),
            body,
            properties,
            content_type: Some(String::from_str("application/octet-stream")),
            subject: None,
        };
        assert(message@.properties =~= Seq::empty());
        assert(message@.body =~= data@);
        message
    }

    /// A copy that holds the same values.
    pub fn duplicate(&self) -> (copy: Self)
        ensures
            copy@ == self@,
    {
        let mut body: Vec<u8> = Vec::new();
        body.extend_from_slice(self.body.as_slice());
        let mut properties: Vec<(String, String)> = Vec::new();
        let mut i: usize = 0;
        while i < self.properties.len()
            invariant
                i <= self.properties.len(),
                properties@.len() == i,
                forall|j: int|
                    0 <= j < i ==> properties@[j].0@ == self.properties@[j].0@ && properties@[j].1@
                        == self.properties@[j].1@,
            decreases self.properties.len() - i,
        {
            properties.push((self.properties[i].0.clone(), self.properties[i].1.clone()));
            i += 1;
        }
        let copy = ServiceBusMessage {
            message_id: match &self.message_id {
                Some(s) => Some(s.clone()),
                None => None,
            },
            body,
            properties,
            content_type: match &self.content_type {
                Some(s) => Some(s.clone()),
                None => None,
            },
            subject: match &self.subject {
                Some(s) => Some(s.clone()),
                None => None,
            },
        };
        assert(copy@.properties =~= self@.properties);
        assert(copy@.body =~= self@.body);
        copy
    }
}

/// A list of named message lists, as plain values.
pub type Shelves = Seq<(Seq<char>, Seq<MessageView>)>;

/// The view of a table of message lists.
pub open spec fn shelves_view(rows: Seq<Entry<Vec<ServiceBusMessage>>>) -> Shelves {
    Seq::new(rows.len(), |i: int| (rows[i].name@, messages_view(rows[i].value@)))
}

/// The view of a table of topics.
pub open spec fn topics_view(
    rows: Seq<Entry<Registry<Vec<ServiceBusMessage>>>>,
) -> Seq<(Seq<char>, Shelves)> {
    Seq::new(rows.len(), |i: int| (rows[i].name@, shelves_view(rows[i].value.rows())))
}

/// Whether a list named `name` is among `shelves`.
pub open spec fn has_shelf(shelves: Shelves, name: Seq<char>) -> bool {
    exists|i: int| 0 <= i < shelves.len() && shelves[i].0 == name
}

/// The messages of the first list named `name`; none where there is no
/// such list.
pub open spec fn shelf(shelves: Shelves, name: Seq<char>) -> Seq<MessageView>
    decreases shelves.len(),
{
    if shelves.len() == 0 {
        Seq::empty()
    } else if shelves[0].0 == name {
        shelves[0].1
    } else {
        shelf(shelves.drop_first(), name)
    }
}

/// No two lists of `shelves` have one name.
pub open spec fn distinct_shelves(shelves: Shelves) -> bool {
    forall|i: int, j: int|
        0 <= i < shelves.len() && 0 <= j < shelves.len() && i != j ==> shelves[i].0 != shelves[j].0
}

/// `shelves` with `message` behind the messages of every list named `name`.
pub open spec fn shelve(shelves: Shelves, name: Seq<char>, message: MessageView) -> Shelves {
    Seq::new(
        shelves.len(),
        |i: int|
            if shelves[i].0 == name {
                (shelves[i].0, shelves[i].1.push(message))
            } else {
                shelves[i]
            },
    )
}

/// `shelves` with `message` behind the messages of every list.
pub open spec fn shelve_all(shelves: Shelves, message: MessageView) -> Shelves {
    Seq::new(shelves.len(), |i: int| (shelves[i].0, shelves[i].1.push(message)))
}

/// `shelves` with the lists named `name` emptied.
pub open spec fn cleared(shelves: Shelves, name: Seq<char>) -> Shelves {
    Seq::new(
        shelves.len(),
        |i: int|
            if shelves[i].0 == name {
                (shelves[i].0, Seq::<MessageView>::empty())
            } else {
                shelves[i]
            },
    )
}

/// The subscriptions of the first topic named `topic` in `topics`.
pub open spec fn subscriptions_in(topics: Seq<(Seq<char>, Shelves)>, topic: Seq<char>) -> Shelves
    decreases topics.len(),
{
    if topics.len() == 0 {
        Seq::empty()
    } else if topics[0].0 == topic {
        topics[0].1
    } else {
        subscriptions_in(topics.drop_first(), topic)
    }
}

/// The transfer frames for a batch of messages: delivery ids count from 1,
/// cut to 32 bits.
pub open spec fn transfer_frames(messages: Seq<MessageView>) -> Seq<Seq<u8>> {
    Seq::new(
        messages.len(),
        |i: int| transfer_frame(((i + 1) % 0x1_0000_0000) as u32, messages[i].body),
    )
}

/// The transfer frames for the lists of `shelves`, list by list.
pub open spec fn all_transfer_frames(shelves: Shelves) -> Seq<Seq<u8>>
    decreases shelves.len(),
{
    if shelves.len() == 0 {
        Seq::empty()
    } else {
        all_transfer_frames(shelves.drop_last()) + transfer_frames(shelves.last().1)
    }
}

/// The views of a list of frames.
pub open spec fn frames_view(frames: Seq<Vec<u8>>) -> Seq<Seq<u8>> {
    frames.map_values(|f: Vec<u8>| f@)
}

/// The bus as plain values: queues by name, and topics by name with their
/// subscriptions by name.
pub struct BusView {
    pub queues: Shelves,
    pub topics: Seq<(Seq<char>, Shelves)>,
}

impl BusView {
    /// No two queues, no two topics and no two subscriptions of a topic
    /// have one name.
    pub open spec fn wf(self) -> bool {
        &&& distinct_shelves(self.queues)
        &&& forall|i: int, j: int|
            0 <= i < self.topics.len() && 0 <= j < self.topics.len() && i != j
                ==> self.topics[i].0 != self.topics[j].0
        &&& forall|i: int| 0 <= i < self.topics.len() ==> distinct_shelves(#[trigger] self.topics[i].1)
    }

    /// Whether the bus has a topic `topic`.
    pub open spec fn has_topic(self, topic: Seq<char>) -> bool {
        exists|i: int| 0 <= i < self.topics.len() && self.topics[i].0 == topic
    }

    /// The subscriptions of the first topic named `topic`; none where
    /// there is no such topic.
    pub open spec fn subscriptions(self, topic: Seq<char>) -> Shelves {
        subscriptions_in(self.topics, topic)
    }

    /// The messages that wait in subscription `sub` of topic `topic`.
    pub open spec fn pending(self, topic: Seq<char>, sub: Seq<char>) -> Seq<MessageView> {
        shelf(self.subscriptions(topic), sub)
    }

    /// The bus after `message` came in for queue `name`. An unknown name
    /// leaves the bus as it is.
    pub open spec fn enqueue(self, name: Seq<char>, message: MessageView) -> BusView {
        BusView { queues: shelve(self.queues, name, message), topics: self.topics }
    }

    /// The bus after `message` came in for topic `topic`: every
    /// subscription of the topic gets it. An unknown name leaves the bus as
    /// it is.
    pub open spec fn publish(self, topic: Seq<char>, message: MessageView) -> BusView {
        BusView {
            queues: self.queues,
            topics: Seq::new(
                self.topics.len(),
                |i: int|
                    if self.topics[i].0 == topic {
                        (self.topics[i].0, shelve_all(self.topics[i].1, message))
                    } else {
                        self.topics[i]
                    },
            ),
        }
    }

    /// The bus after the messages of subscription `sub` of topic `topic`
    /// were handed out.
    pub open spec fn drain(self, topic: Seq<char>, sub: Seq<char>) -> BusView {
        BusView {
            queues: self.queues,
            topics: Seq::new(
                self.topics.len(),
                |i: int|
                    if self.topics[i].0 == topic {
                        (self.topics[i].0, cleared(self.topics[i].1, sub))
                    } else {
                        self.topics[i]
                    },
            ),
        }
    }

    /// The bus after every subscription of topic `topic` was handed out.
    pub open spec fn drain_topic(self, topic: Seq<char>) -> BusView {
        BusView {
            queues: self.queues,
            topics: Seq::new(
                self.topics.len(),
                |i: int|
                    if self.topics[i].0 == topic {
                        (
                            self.topics[i].0,
                            Seq::new(
                                self.topics[i].1.len(),
                                |j: int| (self.topics[i].1[j].0, Seq::<MessageView>::empty()),
                            ),
                        )
                    } else {
                        self.topics[i]
                    },
            ),
        }
    }

    /// The bus after topic `topic` got the subscription `sub`.
    pub open spec fn subscribe(self, topic: Seq<char>, sub: Seq<char>) -> BusView {
        BusView {
            queues: self.queues,
            topics: Seq::new(
                self.topics.len(),
                |i: int|
                    if self.topics[i].0 == topic {
                        (self.topics[i].0, self.topics[i].1.push((sub, Seq::<MessageView>::empty())))
                    } else {
                        self.topics[i]
                    },
            ),
        }
    }
}

/// In a list of distinct names, the list of a name is found at its index.
pub proof fn lemma_shelf_at(shelves: Shelves, i: int)
    requires
        distinct_shelves(shelves),
        0 <= i < shelves.len(),
    ensures
        shelf(shelves, shelves[i].0) == shelves[i].1,
        has_shelf(shelves, shelves[i].0),
    decreases shelves.len(),
{
    if i > 0 {
        let rest = shelves.drop_first();
        assert(rest[i - 1] == shelves[i]);
        assert forall|a: int, b: int|
            0 <= a < rest.len() && 0 <= b < rest.len() && a != b implies rest[a].0 != rest[b].0 by {
            assert(rest[a] == shelves[a + 1]);
            assert(rest[b] == shelves[b + 1]);
        }
        lemma_shelf_at(rest, i - 1);
    }
}

/// A name that no list has finds no messages.
pub proof fn lemma_shelf_absent(shelves: Shelves, name: Seq<char>)
    requires
        !has_shelf(shelves, name),
    ensures
        shelf(shelves, name) == Seq::<MessageView>::empty(),
    decreases shelves.len(),
{
    if shelves.len() > 0 {
        let rest = shelves.drop_first();
        assert(shelves[0].0 != name);
        assert forall|i: int| 0 <= i < rest.len() implies rest[i].0 != name by {
            assert(rest[i] == shelves[i + 1]);
        }
        lemma_shelf_absent(rest, name);
    }
}

/// Among topics of distinct names, the subscriptions of a name are found
/// at its index.
pub proof fn lemma_subscriptions_at(topics: Seq<(Seq<char>, Shelves)>, i: int)
    requires
        forall|a: int, b: int|
            0 <= a < topics.len() && 0 <= b < topics.len() && a != b ==> topics[a].0 != topics[b].0,
        0 <= i < topics.len(),
    ensures
        subscriptions_in(topics, topics[i].0) == topics[i].1,
    decreases topics.len(),
{
    if i > 0 {
        let rest = topics.drop_first();
        assert(rest[i - 1] == topics[i]);
        assert forall|a: int, b: int|
            0 <= a < rest.len() && 0 <= b < rest.len() && a != b implies rest[a].0 != rest[b].0 by {
            assert(rest[a] == topics[a + 1]);
            assert(rest[b] == topics[b + 1]);
        }
        lemma_subscriptions_at(rest, i - 1);
    }
}

/// A name that no topic has finds no subscriptions.
pub proof fn lemma_subscriptions_absent(topics: Seq<(Seq<char>, Shelves)>, name: Seq<char>)
    requires
        forall|i: int| 0 <= i < topics.len() ==> topics[i].0 != name,
    ensures
        subscriptions_in(topics, name) == Seq::<(Seq<char>, Seq<MessageView>)>::empty(),
    decreases topics.len(),
{
    if topics.len() > 0 {
        let rest = topics.drop_first();
        assert forall|i: int| 0 <= i < rest.len() implies rest[i].0 != name by {
            assert(rest[i] == topics[i + 1]);
        }
        lemma_subscriptions_absent(rest, name);
    }
}

/// What is sent to a topic is received from each of its subscriptions:
/// the payload waits there behind what waited before, the last of the
/// transfer frames that the subscription hands out carries it behind the
/// twenty bytes of its header and is read back whole from it, and once
/// handed out it waits no more.
pub proof fn lemma_publish_then_receive(
    bus: BusView,
    topic: Seq<char>,
    sub: Seq<char>,
    payload: Seq<u8>,
    token: Seq<char>,
)
    requires
        bus.wf(),
        bus.has_topic(topic),
        has_shelf(bus.subscriptions(topic), sub),
    ensures
        ({
            let sent = bus.publish(topic, stored_message(payload, token));
            let frames = transfer_frames(sent.pending(topic, sub));
            &&& sent.wf()
            &&& sent.pending(topic, sub) == bus.pending(topic, sub).push(
                stored_message(payload, token),
            )
            &&& frames.len() == bus.pending(topic, sub).len() + 1
            &&& frames.last().skip(20) == payload
            &&& crate::amqp::extract::message_data(frames.last()) == Some(payload)
            &&& sent.drain(topic, sub).pending(topic, sub).len() == 0
        }),
{
    let message = stored_message(payload, token);
    let sent = bus.publish(topic, message);
    let i = choose|i: int| 0 <= i < bus.topics.len() && bus.topics[i].0 == topic;
    lemma_subscriptions_at(bus.topics, i);
    let subs = bus.topics[i].1;
    let j = choose|j: int| 0 <= j < subs.len() && subs[j].0 == sub;
    lemma_shelf_at(subs, j);
    let after = shelve_all(subs, message);
    assert(sent.topics[i] == (topic, after));
    assert forall|a: int, b: int|
        0 <= a < sent.topics.len() && 0 <= b < sent.topics.len() && a != b implies sent.topics[a].0
        != sent.topics[b].0 by {
        assert(sent.topics[a].0 == bus.topics[a].0);
        assert(sent.topics[b].0 == bus.topics[b].0);
    }
    assert forall|t: int| 0 <= t < sent.topics.len() implies distinct_shelves(
        #[trigger] sent.topics[t].1,
    ) by {
        let before = bus.topics[t].1;
        assert(distinct_shelves(before));
        if bus.topics[t].0 == topic {
            assert forall|a: int, b: int|
                0 <= a < sent.topics[t].1.len() && 0 <= b < sent.topics[t].1.len() && a
                    != b implies sent.topics[t].1[a].0 != sent.topics[t].1[b].0 by {
                assert(sent.topics[t].1[a].0 == before[a].0);
                assert(sent.topics[t].1[b].0 == before[b].0);
            }
        }
    }
    lemma_subscriptions_at(sent.topics, i);
    assert(after[j] == (sub, subs[j].1.push(message)));
    lemma_shelf_at(after, j);
    let waiting = sent.pending(topic, sub);
    assert(waiting == bus.pending(topic, sub).push(message));
    let frames = transfer_frames(waiting);
    let last = frames.len() - 1;
    assert(frames.last() == transfer_frame(((last + 1) % 0x1_0000_0000) as u32, payload));
    crate::amqp::frames::lemma_transfer_round_trip(((last + 1) % 0x1_0000_0000) as u32, payload);
    let drained = sent.drain(topic, sub);
    assert forall|a: int, b: int|
        0 <= a < drained.topics.len() && 0 <= b < drained.topics.len() && a
            != b implies drained.topics[a].0 != drained.topics[b].0 by {
        assert(drained.topics[a].0 == sent.topics[a].0);
        assert(drained.topics[b].0 == sent.topics[b].0);
    }
    lemma_subscriptions_at(drained.topics, i);
    let emptied = cleared(after, sub);
    assert(drained.topics[i] == (topic, emptied));
    assert forall|a: int, b: int|
        0 <= a < emptied.len() && 0 <= b < emptied.len() && a != b implies emptied[a].0
        != emptied[b].0 by {
        assert(emptied[a].0 == after[a].0);
        assert(emptied[b].0 == after[b].0);
    }
    assert(emptied[j] == (sub, Seq::<MessageView>::empty()));
    lemma_shelf_at(emptied, j);
}

/// The emulated bus.
pub struct BusState {
    queues: Registry<Vec<ServiceBusMessage>>,
    topics: Registry<Registry<Vec<ServiceBusMessage>>>,
}

impl View for BusState {
    type V = BusView;

    closed spec fn view(&self) -> BusView {
        BusView {
            queues: shelves_view(self.queues.rows()),
            topics: topics_view(self.topics.rows()),
        }
    }
}

/// A table has a list of a name just when its view has one.
pub proof fn lemma_has_shelf(table: Registry<Vec<ServiceBusMessage>>, name: Seq<char>)
    ensures
        table.has(name) == has_shelf(shelves_view(table.rows()), name),
{
    let shelves = shelves_view(table.rows());
    if table.has(name) {
        let i = table.names().index_of(name);
        assert(shelves[i].0 == name);
    }
    if has_shelf(shelves, name) {
        let i = choose|i: int| 0 <= i < shelves.len() && shelves[i].0 == name;
        assert(table.names()[i] == name);
    }
}

/// A table has a topic of a name just when its view has one.
pub proof fn lemma_has_topic(table: Registry<Registry<Vec<ServiceBusMessage>>>, name: Seq<char>)
    ensures
        table.has(name) == exists|i: int|
            0 <= i < topics_view(table.rows()).len() && topics_view(table.rows())[i].0 == name,
{
    let topics = topics_view(table.rows());
    if table.has(name) {
        let i = table.names().index_of(name);
        assert(topics[i].0 == name);
    }
    if exists|i: int| 0 <= i < topics.len() && topics[i].0 == name {
        let i = choose|i: int| 0 <= i < topics.len() && topics[i].0 == name;
        assert(table.names()[i] == name);
    }
}

/// The delivery id of the message at index `k` of a batch.
fn delivery_number(k: usize) -> (id: u32)
    ensures
        id == ((k + 1) % 0x1_0000_0000) as u32,
{
    (((k as u64) % 0x1_0000_0000 + 1) % 0x1_0000_0000) as u32
}

/// Puts `message` behind the messages of list `j` of `table`.
fn push_at(table: &mut Registry<Vec<ServiceBusMessage>>, j: usize, message: ServiceBusMessage)
    requires
        old(table).wf(),
        j < old(table).rows().len(),
    ensures
        final(table).wf(),
        final(table).names() == old(table).names(),
        final(table).rows().len() == old(table).rows().len(),
        shelves_view(final(table).rows()) == shelves_view(old(table).rows()).update(
            j as int,
            (
                shelves_view(old(table).rows())[j as int].0,
                shelves_view(old(table).rows())[j as int].1.push(message@),
            ),
        ),
{
    let mut messages = table.replace_at(j, Vec::new());
    let ghost held = messages@;
    messages.push(message);
    table.replace_at(j, messages);
    proof {
        assert(messages_view(held.push(message)) =~= messages_view(held).push(message@));
        assert(shelves_view(table.rows()) =~= shelves_view(old(table).rows()).update(
            j as int,
            (
                shelves_view(old(table).rows())[j as int].0,
                shelves_view(old(table).rows())[j as int].1.push(message@),
            ),
        ));
    }
}

/// Puts `message` behind the messages of list `name` of `table`.
fn shelve_in(table: &mut Registry<Vec<ServiceBusMessage>>, name: &str, message: ServiceBusMessage) -> (found: bool)
    requires
        old(table).wf(),
    ensures
        final(table).wf(),
        final(table).names() == old(table).names(),
        found == has_shelf(shelves_view(old(table).rows()), name@),
        shelves_view(final(table).rows()) == shelve(
            shelves_view(old(table).rows()),
            name@,
            message@,
        ),
{
    proof {
        lemma_has_shelf(*table, name@);
    }
    let ghost before = shelves_view(table.rows());
    match table.position(name) {
        Some(i) => {
            push_at(table, i, message);
            proof {
                let after = shelves_view(table.rows());
                assert forall|j: int| 0 <= j < before.len() implies after[j] == shelve(
                    before,
                    name@,
                    message@,
                )[j] by {
                    if j != i {
                        assert(old(table).names()[j] != old(table).names()[i as int]);
                    }
                }
                assert(after =~= shelve(before, name@, message@));
            }
            true
        },
        None => {
            proof {
                assert forall|j: int| 0 <= j < before.len() implies before[j].0 != name@ by {
                    assert(table.names()[j] == before[j].0);
                    assert(table.names().contains(before[j].0));
                }
                assert(before =~= shelve(before, name@, message@));
            }
            false
        },
    }
}

/// Renders `messages` as transfer frames behind `frames`.
fn render_batch(messages: &Vec<ServiceBusMessage>, frames: &mut Vec<Vec<u8>>)
    ensures
        frames_view(final(frames)@) == frames_view(old(frames)@) + transfer_frames(
            messages_view(messages@),
        ),
{
    let ghost views = messages_view(messages@);
    let ghost start = frames@;
    let mut k: usize = 0;
    while k < messages.len()
        invariant
            k <= messages.len(),
            views == messages_view(messages@),
            frames@.len() == start.len() + k,
            forall|a: int| 0 <= a < start.len() ==> frames@[a] == start[a],
            forall|a: int|
                0 <= a < k ==> (#[trigger] frames@[start.len() + a])@ == transfer_frame(
                    ((a + 1) % 0x1_0000_0000) as u32,
                    views[a].body,
                ),
        decreases messages.len() - k,
    {
        let id = delivery_number(k);
        let frame = create_transfer_frame(id, messages[k].body.as_slice());
        assert(views[k as int].body == messages@[k as int].body@);
        frames.push(frame);
        k += 1;
    }
    proof {
        let got = frames_view(frames@);
        let want = frames_view(start) + transfer_frames(views);
        assert(got.len() == want.len());
        assert forall|a: int| 0 <= a < got.len() implies got[a] == want[a] by {
            if a >= start.len() {
                let r = a - start.len();
                assert(frames@[start.len() + r]@ == transfer_frame(
                    ((r + 1) % 0x1_0000_0000) as u32,
                    views[r].body,
                ));
            }
        }
        assert(got =~= want);
    }
}

/// Takes the messages of list `i` of `table` and renders them as transfer
/// frames behind `frames`.
fn drain_at(table: &mut Registry<Vec<ServiceBusMessage>>, i: usize, frames: &mut Vec<Vec<u8>>)
    requires
        old(table).wf(),
        i < old(table).rows().len(),
    ensures
        final(table).wf(),
        final(table).names() == old(table).names(),
        final(table).rows().len() == old(table).rows().len(),
        shelves_view(final(table).rows()) == shelves_view(old(table).rows()).update(
            i as int,
            (shelves_view(old(table).rows())[i as int].0, Seq::<MessageView>::empty()),
        ),
        frames_view(final(frames)@) == frames_view(old(frames)@) + transfer_frames(
            shelves_view(old(table).rows())[i as int].1,
        ),
{
    let messages = table.replace_at(i, Vec::new());
    proof {
        assert(messages_view(Seq::<ServiceBusMessage>::empty()) =~= Seq::<MessageView>::empty());
        assert(shelves_view(table.rows()) =~= shelves_view(old(table).rows()).update(
            i as int,
            (shelves_view(old(table).rows())[i as int].0, Seq::<MessageView>::empty()),
        ));
    }
    render_batch(&messages, frames);
}

impl BusState {
    /// Names are distinct at every level.
    pub closed spec fn wf(&self) -> bool {
        &&& self.queues.wf()
        &&& self.topics.wf()
        &&& forall|i: int|
            0 <= i < self.topics.rows().len() ==> (#[trigger] self.topics.rows()[i]).value.wf()
    }

    /// A well-formed bus has a well-formed view.
    pub proof fn lemma_view_wf(&self)
        requires
            self.wf(),
        ensures
            self@.wf(),
    {
        let v = self@;
        assert forall|i: int, j: int|
            0 <= i < v.queues.len() && 0 <= j < v.queues.len() && i != j implies v.queues[i].0
            != v.queues[j].0 by {
            assert(self.queues.names()[i] != self.queues.names()[j]);
        }
        assert forall|i: int, j: int|
            0 <= i < v.topics.len() && 0 <= j < v.topics.len() && i != j implies v.topics[i].0
            != v.topics[j].0 by {
            assert(self.topics.names()[i] != self.topics.names()[j]);
        }
        assert forall|i: int| 0 <= i < v.topics.len() implies distinct_shelves(
            #[trigger] v.topics[i].1,
        ) by {
            let subs = self.topics.rows()[i].value;
            assert(subs.wf());
            assert forall|a: int, b: int|
                0 <= a < v.topics[i].1.len() && 0 <= b < v.topics[i].1.len() && a != b implies v.topics[i].1[a].0
                != v.topics[i].1[b].0 by {
                assert(subs.names()[a] != subs.names()[b]);
            }
        }
    }

    /// A bus without queues and topics.
    pub fn new() -> (bus: Self)
        ensures
            bus.wf(),
            bus@.queues.len() == 0,
            bus@.topics.len() == 0,
    {
        BusState { queues: Registry::new(), topics: Registry::new() }
    }

    /// Number of queues.
    pub fn queue_count(&self) -> (n: usize)
        ensures
            n == self@.queues.len(),
    {
        self.queues.len()
    }

    /// Number of topics.
    pub fn topic_count(&self) -> (n: usize)
        ensures
            n == self@.topics.len(),
    {
        self.topics.len()
    }

    /// The messages that wait in queue `name`, oldest first; none for an
    /// unknown queue.
    pub fn queue_messages(&self, name: &str) -> (messages: Option<&Vec<ServiceBusMessage>>)
        requires
            self.wf(),
        ensures
            match messages {
                Some(m) => has_shelf(self@.queues, name@) && messages_view(m@) == shelf(
                    self@.queues,
                    name@,
                ),
                None => !has_shelf(self@.queues, name@),
            },
    {
        proof {
            lemma_has_shelf(self.queues, name@);
            self.lemma_view_wf();
        }
        match self.queues.position(name) {
            Some(i) => {
                proof {
                    lemma_shelf_at(self@.queues, i as int);
                }
                Some(self.queues.value_at(i))
            },
            None => None,
        }
    }

    /// The messages that wait in subscription `sub` of topic `topic`,
    /// oldest first; none for an unknown topic or subscription.
    pub fn subscription_messages(&self, topic: &str, sub: &str) -> (messages: Option<
        &Vec<ServiceBusMessage>,
    >)
        requires
            self.wf(),
        ensures
            match messages {
                Some(m) => {
                    &&& self@.has_topic(topic@)
                    &&& has_shelf(self@.subscriptions(topic@), sub@)
                    &&& messages_view(m@) == self@.pending(topic@, sub@)
                },
                None => !self@.has_topic(topic@) || !has_shelf(self@.subscriptions(topic@), sub@),
            },
    {
        proof {
            lemma_has_topic(self.topics, topic@);
            self.lemma_view_wf();
        }
        match self.topics.position(topic) {
            Some(i) => {
                let subs = self.topics.value_at(i);
                proof {
                    lemma_subscriptions_at(self@.topics, i as int);
                    lemma_has_shelf(*subs, sub@);
                    assert(subs.wf());
                }
                match subs.position(sub) {
                    Some(j) => {
                        proof {
                            lemma_shelf_at(shelves_view(subs.rows()), j as int);
                        }
                        Some(subs.value_at(j))
                    },
                    None => None,
                }
            },
            None => None,
        }
    }

    /// Declares a queue. A name that is taken changes nothing.
    pub fn add_queue(&mut self, name: &str) -> (added: bool)
        requires
            old(self).wf(),
        ensures
            final(self).wf(),
            added == !has_shelf(old(self)@.queues, name@),
            added ==> final(self)@.queues == old(self)@.queues.push(
                (name@, Seq::<MessageView>::empty()),
            ),
            !added ==> final(self)@.queues == old(self)@.queues,
            final(self)@.topics == old(self)@.topics,
    {
        proof {
            lemma_has_shelf(self.queues, name@);
        }
        match self.queues.position(name) {
            Some(_) => false,
            None => {
                let messages: Vec<ServiceBusMessage> = Vec::new();
                self.queues.insert(String::from_str(name), messages);
                proof {
                    assert(messages_view(messages@) =~= Seq::<MessageView>::empty());
                    assert(self@.queues =~= old(self)@.queues.push(
                        (name@, Seq::<MessageView>::empty()),
                    ));
                }
                true
            },
        }
    }

    /// Declares a topic without subscriptions. A name that is taken
    /// changes nothing.
    pub fn add_topic(&mut self, name: &str) -> (added: bool)
        requires
            old(self).wf(),
        ensures
            final(self).wf(),
            added == !old(self)@.has_topic(name@),
            added ==> final(self)@.topics == old(self)@.topics.push((name@, Seq::empty())),
            !added ==> final(self)@.topics == old(self)@.topics,
            final(self)@.queues == old(self)@.queues,
    {
        proof {
            lemma_has_topic(self.topics, name@);
        }
        match self.topics.position(name) {
            Some(_) => false,
            None => {
                let subs: Registry<Vec<ServiceBusMessage>> = Registry::new();
                self.topics.insert(String::from_str(name), subs);
                proof {
                    assert(shelves_view(subs.rows()) =~= Seq::empty());
                    assert(self@.topics =~= old(self)@.topics.push((name@, Seq::empty())));
                }
                true
            },
        }
    }

    /// Declares a subscription of a topic. An unknown topic, or a name that
    /// the topic has already, changes nothing.
    pub fn add_subscription(&mut self, topic: &str, sub: &str) -> (added: bool)
        requires
            old(self).wf(),
        ensures
            final(self).wf(),
            added == (old(self)@.has_topic(topic@) && !has_shelf(
                old(self)@.subscriptions(topic@),
                sub@,
            )),
            added ==> final(self)@ == old(self)@.subscribe(topic@, sub@),
            !added ==> final(self)@ == old(self)@,
    {
        proof {
            lemma_has_topic(self.topics, topic@);
            self.lemma_view_wf();
        }
        let ghost before = self@;
        match self.topics.position(topic) {
            Some(i) => {
                proof {
                    lemma_subscriptions_at(before.topics, i as int);
                }
                let mut subs = self.topics.replace_at(i, Registry::new());
                proof {
                    lemma_has_shelf(subs, sub@);
                }
                let added = match subs.position(sub) {
                    Some(_) => false,
                    None => {
                        let messages: Vec<ServiceBusMessage> = Vec::new();
                        subs.insert(String::from_str(sub), messages);
                        proof {
                            assert(messages_view(messages@) =~= Seq::<MessageView>::empty());
                        }
                        true
                    },
                };
                self.topics.replace_at(i, subs);
                proof {
                    let after = self@;
                    if added {
                        let want = before.subscribe(topic@, sub@);
                        assert forall|j: int| 0 <= j < before.topics.len() implies after.topics[j]
                            == want.topics[j] by {
                            if j != i {
                                assert(old(self).topics.names()[j] != old(self).topics.names()[i as int]);
                            } else {
                                assert(after.topics[j].1 =~= before.topics[j].1.push(
                                    (sub@, Seq::<MessageView>::empty()),
                                ));
                            }
                        }
                        assert(after.topics =~= want.topics);
                    } else {
                        assert(after.topics =~= before.topics);
                    }
                }
                added
            },
            None => false,
        }
    }

    /// Stores a payload in queue `queue_name` under the id `msg-` and
    /// `token`. Says whether the queue exists; an unknown queue stores
    /// nothing.
    pub fn process_queue_message_as(&mut self, queue_name: &str, data: &[u8], token: &str) -> (stored: bool)
        requires
            old(self).wf(),
        ensures
            final(self).wf(),
            stored == has_shelf(old(self)@.queues, queue_name@),
            final(self)@ == old(self)@.enqueue(queue_name@, stored_message(data@, token@)),
    {
        let message = ServiceBusMessage::stored(data, token);
        shelve_in(&mut self.queues, queue_name, message)
    }

    /// Stores a payload in every subscription of topic `topic_name` under
    /// the id `msg-` and `token`. Says whether the topic exists; an unknown
    /// topic stores nothing.
    pub fn process_topic_message_as(&mut self, topic_name: &str, data: &[u8], token: &str) -> (stored: bool)
        requires
            old(self).wf(),
        ensures
            final(self).wf(),
            stored == old(self)@.has_topic(topic_name@),
            final(self)@ == old(self)@.publish(topic_name@, stored_message(data@, token@)),
    {
        proof {
            lemma_has_topic(self.topics, topic_name@);
        }
        let ghost before = self@;
        let ghost message = stored_message(data@, token@);
        match self.topics.position(topic_name) {
            Some(i) => {
                let mut subs = self.topics.replace_at(i, Registry::new());
                let ghost subs_before = shelves_view(subs.rows());
                let n = subs.len();
                let mut j: usize = 0;
                while j < n
                    invariant
                        j <= n,
                        subs.wf(),
                        n == subs.rows().len(),
                        n == subs_before.len(),
                        message == stored_message(data@, token@),
                        shelves_view(subs.rows()) == Seq::new(
                            n as nat,
                            |k: int|
                                if k < j {
                                    (subs_before[k].0, subs_before[k].1.push(message))
                                } else {
                                    subs_before[k]
                                },
                        ),
                    decreases n - j,
                {
                    let copy = ServiceBusMessage::stored(data, token);
                    push_at(&mut subs, j, copy);
                    proof {
                        assert(shelves_view(subs.rows()) =~= Seq::new(
                            n as nat,
                            |k: int|
                                if k < j + 1 {
                                    (subs_before[k].0, subs_before[k].1.push(message))
                                } else {
                                    subs_before[k]
                                },
                        ));
                    }
                    j += 1;
                }
                self.topics.replace_at(i, subs);
                proof {
                    let after = self@;
                    let want = before.publish(topic_name@, message);
                    assert forall|t: int| 0 <= t < before.topics.len() implies after.topics[t]
                        == want.topics[t] by {
                        if t != i {
                            assert(old(self).topics.names()[t] != old(self).topics.names()[i as int]);
                        } else {
                            assert(after.topics[t].1 =~= shelve_all(before.topics[t].1, message));
                        }
                    }
                    assert(after.topics =~= want.topics);
                }
                true
            },
            None => {
                proof {
                    let want = before.publish(topic_name@, message);
                    assert forall|t: int| 0 <= t < before.topics.len() implies before.topics[t]
                        == want.topics[t] by {
                        assert(self.topics.names()[t] == before.topics[t].0);
                        assert(self.topics.names().contains(before.topics[t].0));
                    }
                    assert(before.topics =~= want.topics);
                }
                false
            },
        }
    }

    /// Stores a payload in queue `queue_name` under a fresh id.
    pub fn process_queue_message(&mut self, queue_name: &str, data: &[u8]) -> (stored: bool)
        requires
            old(self).wf(),
        ensures
            final(self).wf(),
            stored == has_shelf(old(self)@.queues, queue_name@),
            exists|token: Seq<char>|
                is_uuid_text(token) && final(self)@ == old(self)@.enqueue(
                    queue_name@,
                    #[trigger] stored_message(data@, token),
                ),
    {
        let token = random_uuid();
        let stored = self.process_queue_message_as(queue_name, data, token.as_str());
        assert(self@ == old(self)@.enqueue(queue_name@, stored_message(data@, token@)));
        stored
    }

    /// Stores a payload in every subscription of topic `topic_name` under a
    /// fresh id.
    pub fn process_topic_message(&mut self, topic_name: &str, data: &[u8]) -> (stored: bool)
        requires
            old(self).wf(),
        ensures
            final(self).wf(),
            stored == old(self)@.has_topic(topic_name@),
            exists|token: Seq<char>|
                is_uuid_text(token) && final(self)@ == old(self)@.publish(
                    topic_name@,
                    #[trigger] stored_message(data@, token),
                ),
    {
        let token = random_uuid();
        let stored = self.process_topic_message_as(topic_name, data, token.as_str());
        assert(self@ == old(self)@.publish(topic_name@, stored_message(data@, token@)));
        stored
    }

    /// Hands out what waits in subscription `subscription_name` of topic
    /// `topic_name`: the messages leave the bus and come back as transfer
    /// frames, in the order in which they were stored.
    pub fn send_subscription_messages(&mut self, topic_name: &str, subscription_name: &str) -> (frames: Vec<Vec<u8>>)
        requires
            old(self).wf(),
        ensures
            final(self).wf(),
            frames_view(frames@) == transfer_frames(
                old(self)@.pending(topic_name@, subscription_name@),
            ),
            final(self)@ == old(self)@.drain(topic_name@, subscription_name@),
    {
        proof {
            lemma_has_topic(self.topics, topic_name@);
            self.lemma_view_wf();
        }
        let ghost before = self@;
        let mut frames: Vec<Vec<u8>> = Vec::new();
        assert(frames_view(frames@) =~= Seq::<Seq<u8>>::empty());
        match self.topics.position(topic_name) {
            Some(i) => {
                proof {
                    lemma_subscriptions_at(before.topics, i as int);
                }
                let mut subs = self.topics.replace_at(i, Registry::new());
                let ghost subs_before = shelves_view(subs.rows());
                proof {
                    lemma_has_shelf(subs, subscription_name@);
                    assert(subs_before == before.topics[i as int].1);
                }
                match subs.position(subscription_name) {
                    Some(j) => {
                        proof {
                            lemma_shelf_at(subs_before, j as int);
                        }
                        drain_at(&mut subs, j, &mut frames);
                        proof {
                            let subs_after = shelves_view(subs.rows());
                            assert forall|k: int| 0 <= k < subs_before.len() implies subs_after[k]
                                == cleared(subs_before, subscription_name@)[k] by {
                                if k != j {
                                    assert(subs.names()[k] != subs.names()[j as int]);
                                }
                            }
                            assert(subs_after =~= cleared(subs_before, subscription_name@));
                        }
                    },
                    None => {
                        proof {
                            lemma_shelf_absent(subs_before, subscription_name@);
                            assert forall|k: int| 0 <= k < subs_before.len() implies subs_before[k].0
                                != subscription_name@ by {
                                assert(subs.names()[k] == subs_before[k].0);
                                assert(subs.names().contains(subs_before[k].0));
                            }
                            assert(subs_before =~= cleared(subs_before, subscription_name@));
                            assert(transfer_frames(Seq::<MessageView>::empty()) =~= Seq::<
                                Seq<u8>,
                            >::empty());
                        }
                    },
                }
                self.topics.replace_at(i, subs);
                proof {
                    let after = self@;
                    let want = before.drain(topic_name@, subscription_name@);
                    assert forall|t: int| 0 <= t < before.topics.len() implies after.topics[t]
                        == want.topics[t] by {
                        if t != i {
                            assert(old(self).topics.names()[t] != old(self).topics.names()[i as int]);
                        }
                    }
                    assert(after.topics =~= want.topics);
                }
            },
            None => {
                proof {
                    assert forall|t: int| 0 <= t < before.topics.len() implies before.topics[t].0
                        != topic_name@ by {
                        assert(self.topics.names()[t] == before.topics[t].0);
                        assert(self.topics.names().contains(before.topics[t].0));
                    }
                    lemma_subscriptions_absent(before.topics, topic_name@);
                    assert(transfer_frames(Seq::<MessageView>::empty()) =~= Seq::<Seq<u8>>::empty());
                    assert(before.topics =~= before.drain(topic_name@, subscription_name@).topics);
                }
            },
        }
        frames
    }

    /// Hands out what waits in every subscription of topic `topic_name`,
    /// subscription by subscription in the order in which they were
    /// declared. An unknown topic hands out nothing.
    pub fn send_messages_to_subscriptions(&mut self, topic_name: &str) -> (frames: Vec<Vec<u8>>)
        requires
            old(self).wf(),
        ensures
            final(self).wf(),
            frames_view(frames@) == all_transfer_frames(old(self)@.subscriptions(topic_name@)),
            final(self)@ == old(self)@.drain_topic(topic_name@),
    {
        proof {
            lemma_has_topic(self.topics, topic_name@);
            self.lemma_view_wf();
        }
        let ghost before = self@;
        let mut frames: Vec<Vec<u8>> = Vec::new();
        assert(frames_view(frames@) =~= Seq::<Seq<u8>>::empty());
        match self.topics.position(topic_name) {
            Some(i) => {
                proof {
                    lemma_subscriptions_at(before.topics, i as int);
                }
                let mut subs = self.topics.replace_at(i, Registry::new());
                let ghost subs_before = shelves_view(subs.rows());
                let n = subs.len();
                let mut j: usize = 0;
                while j < n
                    invariant
                        j <= n,
                        subs.wf(),
                        n == subs.rows().len(),
                        n == subs_before.len(),
                        frames_view(frames@) == all_transfer_frames(subs_before.take(j as int)),
                        shelves_view(subs.rows()) == Seq::new(
                            n as nat,
                            |k: int|
                                if k < j {
                                    (subs_before[k].0, Seq::<MessageView>::empty())
                                } else {
                                    subs_before[k]
                                },
                        ),
                    decreases n - j,
                {
                    drain_at(&mut subs, j, &mut frames);
                    proof {
                        assert(shelves_view(subs.rows()) =~= Seq::new(
                            n as nat,
                            |k: int|
                                if k < j + 1 {
                                    (subs_before[k].0, Seq::<MessageView>::empty())
                                } else {
                                    subs_before[k]
                                },
                        ));
                        assert(subs_before.take(j + 1).drop_last() =~= subs_before.take(j as int));
                        assert(subs_before.take(j + 1).last() == subs_before[j as int]);
                    }
                    j += 1;
                }
                self.topics.replace_at(i, subs);
                proof {
                    assert(subs_before.take(n as int) =~= subs_before);
                    let after = self@;
                    let want = before.drain_topic(topic_name@);
                    assert forall|t: int| 0 <= t < before.topics.len() implies after.topics[t]
                        == want.topics[t] by {
                        if t != i {
                            assert(old(self).topics.names()[t] != old(self).topics.names()[i as int]);
                        } else {
                            assert(after.topics[t].1 =~= want.topics[t].1);
                        }
                    }
                    assert(after.topics =~= want.topics);
                }
            },
            None => {
                proof {
                    assert forall|t: int| 0 <= t < before.topics.len() implies before.topics[t].0
                        != topic_name@ by {
                        assert(self.topics.names()[t] == before.topics[t].0);
                        assert(self.topics.names().contains(before.topics[t].0));
                    }
                    lemma_subscriptions_absent(before.topics, topic_name@);
                    assert(before.topics =~= before.drain_topic(topic_name@).topics);
                }
            },
        }
        frames
    }
}

} // verus!
