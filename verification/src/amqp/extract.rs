//! What the broker emulator reads out of a client's frames: the entity a
//! link is attached to, the payload of a transfer and its delivery id.

use crate::amqp::frames::{be_value, from_be_bytes, marks, DESCRIBED, TRANSFER};
use crate::outside::{lossy_text, utf8_lossy};
use crate::text::{
    char_is_white_space, chars_of, contains_text, find_text, first_occurrence, is_white_space,
    slice_text,
};
use vstd::prelude::*;
use vstd::utf8::{decode_utf8, valid_utf8};

verus! {

/// The entity a link is attached to, with its full address.
#[derive(Debug)]
pub enum EntityType {
    /// `queue:<name>`
    Queue(String),
    /// `topic:<name>`
    Topic(String),
    /// `topic:<name>/subscriptions/<subscription>`
    Subscription(String),
}

/// An entity with its address as a sequence of characters.
pub enum Entity {
    Queue(Seq<char>),
    Topic(Seq<char>),
    Subscription(Seq<char>),
}

impl View for EntityType {
    type V = Entity;

    open spec fn view(&self) -> Entity {
        match self {
            EntityType::Queue(a) => Entity::Queue(a@),
            EntityType::Topic(a) => Entity::Topic(a@),
            EntityType::Subscription(a) => Entity::Subscription(a@),
        }
    }
}

/// The prefix of a queue address.
pub open spec fn queue_prefix() -> Seq<char> {
    "queue:"@
}

/// The prefix of a topic address.
pub open spec fn topic_prefix() -> Seq<char> {
    "topic:"@
}

/// What stands between a topic's name and a subscription's name.
pub open spec fn subscriptions_infix() -> Seq<char> {
    "/subscriptions/"@
}

/// A character that ends an address: white space, `;` or `"`.
pub open spec fn ends_address(c: char) -> bool {
    is_white_space(c) || c == ';' || c == '"'
}

/// Number of characters of `text` in front of the first one that ends an
/// address.
pub open spec fn address_len(text: Seq<char>) -> nat
    decreases text.len(),
{
    if text.len() == 0 || ends_address(text[0]) {
        0
    } else {
        1 + address_len(text.drop_first())
    }
}

/// The address at the start of `text`.
pub open spec fn address_of(text: Seq<char>) -> Seq<char> {
    text.take(address_len(text) as int)
}

/// The first index at which `needle` stands in `hay`.
pub open spec fn first_index(hay: Seq<char>, needle: Seq<char>) -> int {
    choose|i: int| first_occurrence(hay, needle, i)
}

/// There is one first occurrence at most.
pub proof fn lemma_first_index(hay: Seq<char>, needle: Seq<char>, i: int)
    requires
        first_occurrence(hay, needle, i),
    ensures
        first_index(hay, needle) == i,
{
    let k = first_index(hay, needle);
    assert(first_occurrence(hay, needle, k));
    if k < i {
        assert(false);
    }
    if i < k {
        assert(false);
    }
}

/// The entity that a text names: a queue where `queue:` occurs, else a
/// topic or one of its subscriptions where `topic:` occurs. The address
/// starts at the first occurrence of the prefix and includes it.
pub open spec fn entity_of_text(text: Seq<char>) -> Option<Entity> {
    if contains_text(text, queue_prefix()) {
        Some(Entity::Queue(address_of(text.skip(first_index(text, queue_prefix())))))
    } else if contains_text(text, topic_prefix()) {
        let address = address_of(text.skip(first_index(text, topic_prefix())));
        if contains_text(address, subscriptions_infix()) {
            Some(Entity::Subscription(address))
        } else {
            Some(Entity::Topic(address))
        }
    } else {
        None
    }
}

/// The address length counts up to the first character that ends it.
proof fn lemma_address_len(text: Seq<char>, n: nat)
    requires
        n <= text.len(),
        forall|j: int| 0 <= j < n ==> !ends_address(text[j]),
        n < text.len() ==> ends_address(text[n as int]),
    ensures
        address_len(text) == n,
    decreases n,
{
    if n > 0 {
        let rest = text.drop_first();
        assert forall|j: int| 0 <= j < n - 1 implies !ends_address(rest[j]) by {
            assert(rest[j] == text[j + 1]);
        }
        if n < text.len() {
            assert(rest[n - 1] == text[n as int]);
        }
        lemma_address_len(rest, (n - 1) as nat);
    }
}

/// Index behind the address that starts at `from` in `chars`.
fn address_end(chars: &Vec<char>, from: usize) -> (end: usize)
    requires
        from <= chars.len(),
    ensures
        from <= end <= chars.len(),
        end - from == address_len(chars@.skip(from as int)),
{
    let mut end: usize = from;
    while end < chars.len() && !(char_is_white_space(chars[end]) || chars[end] == ';'
        || chars[end] == '"')
        invariant
            from <= end <= chars.len(),
            forall|j: int| from <= j < end ==> !ends_address(chars@[j]),
        decreases chars.len() - end,
    {
        end += 1;
    }
    proof {
        let rest = chars@.skip(from as int);
        assert forall|j: int| 0 <= j < end - from implies !ends_address(rest[j]) by {
            assert(rest[j] == chars@[from + j]);
        }
        lemma_address_len(rest, (end - from) as nat);
    }
    end
}

/// The address at the start of `text`: everything in front of the first
/// white space, `;` or `"`, or all of it where there is none.
pub fn extract_address(text: &str) -> (address: String)
    ensures
        address@ == address_of(text@),
{
    let chars = chars_of(text);
    let end = address_end(&chars, 0);
    assert(chars@.skip(0) =~= chars@);
    assert(text@.subrange(0, end as int) =~= address_of(text@));
    slice_text(text, 0, end)
}

/// The entity that `text` names.
pub fn entity_in_text(text: &str) -> (entity: Option<EntityType>)
    ensures
        entity is Some == entity_of_text(text@) is Some,
        entity is Some ==> entity->0@ == entity_of_text(text@)->0,
{
    let chars = chars_of(text);
    let queue = chars_of("queue:");
    let topic = chars_of("topic:");
    let infix = chars_of("/subscriptions/");
    match find_text(&chars, &queue) {
        Some(at) => {
            let end = address_end(&chars, at);
            let address = slice_text(text, at, end);
            proof {
                lemma_first_index(text@, queue_prefix(), at as int);
                assert(address@ =~= address_of(text@.skip(at as int)));
            }
            Some(EntityType::Queue(address))
        },
        None => match find_text(&chars, &topic) {
            Some(at) => {
                let end = address_end(&chars, at);
                let address = slice_text(text, at, end);
                proof {
                    lemma_first_index(text@, topic_prefix(), at as int);
                    assert(address@ =~= address_of(text@.skip(at as int)));
                }
                let address_chars = chars_of(address.as_str());
                match find_text(&address_chars, &infix) {
                    Some(_) => Some(EntityType::Subscription(address)),
                    None => Some(EntityType::Topic(address)),
                }
            },
            None => None,
        },
    }
}

/// The entity that an Attach frame names, read from the frame's bytes
/// taken as text by lossy UTF-8 decoding. For a frame that is UTF-8 it is
/// the entity that the text of the frame names.
pub fn extract_client_info(data: &[u8]) -> (entity: Option<EntityType>)
    ensures
        entity is Some == entity_of_text(lossy_text(data@)) is Some,
        entity is Some ==> entity->0@ == entity_of_text(lossy_text(data@))->0,
        valid_utf8(data@) ==> {
            &&& entity is Some == entity_of_text(decode_utf8(data@)) is Some
            &&& entity is Some ==> entity->0@ == entity_of_text(decode_utf8(data@))->0
        },
{
    let text = utf8_lossy(data);
    entity_in_text(text.as_str())
}

/// The payload of a transfer frame: what follows the twenty bytes of its
/// header, be it nothing. A chunk that is shorter than a header carries
/// none.
pub open spec fn message_data(frame: Seq<u8>) -> Option<Seq<u8>> {
    if frame.len() < 20 {
        None
    } else {
        Some(frame.skip(20))
    }
}

pub fn extract_message_data(frame_data: &[u8]) -> (data: Option<Vec<u8>>)
    ensures
        data is Some == message_data(frame_data@) is Some,
        data is Some ==> data->0@ == message_data(frame_data@)->0,
{
    if frame_data.len() < 20 {
        return None;
    }
    let mut out: Vec<u8> = Vec::new();
    let mut i: usize = 20;
    while i < frame_data.len()
        invariant
            20 <= i <= frame_data.len(),
            out@ == frame_data@.subrange(20, i as int),
        decreases frame_data.len() - i,
    {
        out.push(frame_data[i]);
        assert(out@ =~= frame_data@.subrange(20, i + 1));
        i += 1;
    }
    assert(out@ =~= frame_data@.skip(20));
    Some(out)
}

/// Whether `i` is the first index from 4 on, with seven bytes behind it,
/// at which `data` announces a transfer.
pub open spec fn first_transfer_at(data: Seq<u8>, i: int) -> bool {
    &&& 4 <= i < data.len() - 7
    &&& marks(data, i, 0x14)
    &&& forall|j: int| 4 <= j < i ==> !marks(data, j, 0x14)
}

/// The delivery id of a transfer frame: the four big-endian bytes that
/// start three bytes behind the first announcement of a transfer. A frame
/// of fewer than sixteen bytes, or without such an announcement, has none.
pub open spec fn delivery_id(data: Seq<u8>) -> Option<u32> {
    if data.len() >= 16 && exists|i: int| first_transfer_at(data, i) {
        let i = choose|i: int| first_transfer_at(data, i);
        Some(be_value(data[i + 3], data[i + 4], data[i + 5], data[i + 6]))
    } else {
        None
    }
}

/// There is one first announcement at most.
pub proof fn lemma_first_transfer(data: Seq<u8>, i: int)
    requires
        data.len() >= 16,
        first_transfer_at(data, i),
    ensures
        delivery_id(data) == Some(be_value(data[i + 3], data[i + 4], data[i + 5], data[i + 6])),
{
    let k = choose|k: int| first_transfer_at(data, k);
    if k < i {
        assert(false);
    }
    if i < k {
        assert(false);
    }
}

pub fn extract_delivery_id(frame_data: &[u8]) -> (id: Option<u32>)
    ensures
        id == delivery_id(frame_data@),
{
    if frame_data.len() < 16 {
        return None;
    }
    let end: usize = frame_data.len() - 7;
    let mut i: usize = 4;
    while i < end
        invariant
            4 <= i <= end,
            frame_data.len() >= 16,
            end == frame_data.len() - 7,
            forall|j: int| 4 <= j < i ==> !marks(frame_data@, j, 0x14),
        decreases end - i,
    {
        if frame_data[i] == DESCRIBED && frame_data[i + 1] == TRANSFER {
            proof {
                lemma_first_transfer(frame_data@, i as int);
            }
            return Some(
                from_be_bytes(
                    frame_data[i + 3],
                    frame_data[i + 4],
                    frame_data[i + 5],
                    frame_data[i + 6],
                ),
            );
        }
        i += 1;
    }
    None
}

} // verus!
