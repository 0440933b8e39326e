//! Fixed-layout frames that the broker emulator writes, and the recognisers
//! for the performatives that a client sends.
//!
//! A frame starts with a four-byte big-endian size and a four-byte header
//! (data offset, type, channel). A performative is announced by the byte
//! `0x53` followed by its code.

use crate::amqp::extract::{delivery_id, extract_delivery_id, first_transfer_at, lemma_first_transfer, message_data};
use vstd::prelude::*;

verus! {

/// The byte that announces a performative code.
pub const DESCRIBED: u8 = 0x53;

/// Performative code of SASL-INIT.
pub const SASL_INIT: u8 = 0x41;

/// Performative code of Open.
pub const OPEN: u8 = 0x10;

/// Performative code of Begin.
pub const BEGIN: u8 = 0x11;

/// Performative code of Attach.
pub const ATTACH: u8 = 0x12;

/// Performative code of Transfer.
pub const TRANSFER: u8 = 0x14;

/// Big-endian bytes of a 32-bit value, most significant first.
pub open spec fn be_bytes(v: u32) -> Seq<u8> {
    seq![
        (v / 0x100_0000) as u8,
        ((v / 0x1_0000) % 0x100) as u8,
        ((v / 0x100) % 0x100) as u8,
        (v % 0x100) as u8,
    ]
}

/// The value that four big-endian bytes stand for.
pub open spec fn be_value(b0: u8, b1: u8, b2: u8, b3: u8) -> u32 {
    (b0 * 0x100_0000 + b1 * 0x1_0000 + b2 * 0x100 + b3) as u32
}

/// Reading back the bytes of a value gives the value.
pub proof fn lemma_be_round_trip(v: u32)
    ensures
        be_value(be_bytes(v)[0], be_bytes(v)[1], be_bytes(v)[2], be_bytes(v)[3]) == v,
{
}

/// Splits a 32-bit value into its four big-endian bytes.
pub fn to_be_bytes(v: u32) -> (out: [u8; 4])
    ensures
        out@ == be_bytes(v),
{
    let b0: u8 = (v / 0x100_0000) as u8;
    let b1: u8 = ((v / 0x1_0000) % 0x100) as u8;
    let b2: u8 = ((v / 0x100) % 0x100) as u8;
    let b3: u8 = (v % 0x100) as u8;
    let out = [b0, b1, b2, b3];
    assert(out@ =~= be_bytes(v));
    out
}

/// Joins four big-endian bytes into the value they stand for.
pub fn from_be_bytes(b0: u8, b1: u8, b2: u8, b3: u8) -> (v: u32)
    ensures
        v == be_value(b0, b1, b2, b3),
{
    (b0 as u32) * 0x100_0000 + (b1 as u32) * 0x1_0000 + (b2 as u32) * 0x100 + (b3 as u32)
}

/// The SASL-MECHANISMS frame, which offers PLAIN.
pub open spec fn sasl_mechanisms_frame() -> Seq<u8> {
    seq![
        0x00u8, 0x00, 0x00, 0x20,
        0x02, 0x01, 0x00, 0x00,
        0x00, 0x53, 0x40, 0xC0,
        0x03, 0xA3, 0x05, 0x50,
        0x4C, 0x41, 0x49, 0x4E,
        0x00, 0x00, 0x00, 0x00,
    ]
}

/// The SASL-OUTCOME frame with the given outcome code.
pub open spec fn sasl_outcome_frame(code: u8) -> Seq<u8> {
    seq![
        0x00u8, 0x00, 0x00, 0x10,
        0x02, 0x01, 0x00, 0x00,
        0x00, 0x53, 0x44, 0x43,
        code, 0x00, 0x00, 0x00,
        0x00, 0x00, 0x00, 0x00,
    ]
}

/// The answer to Open: empty container id and hostname, frame size 10000.
pub open spec fn open_frame() -> Seq<u8> {
    seq![
        0x00u8, 0x00, 0x00, 0x18,
        0x02, 0x00, 0x00, 0x00,
        0x00, 0x53, 0x10, 0xD0,
        0x00, 0x00, 0x00, 0x00,
        0x00, 0x00, 0x00, 0x00,
        0x00, 0x00, 0x27, 0x10,
    ]
}

/// The answer to Begin: remote channel 0, next outgoing id 1, windows of 100.
pub open spec fn begin_frame() -> Seq<u8> {
    seq![
        0x00u8, 0x00, 0x00, 0x1C,
        0x02, 0x00, 0x00, 0x00,
        0x00, 0x53, 0x11, 0xC0,
        0x00, 0x00, 0x00, 0x00,
        0x00, 0x00, 0x00, 0x01,
        0x00, 0x00, 0x00, 0x64,
        0x00, 0x00, 0x00, 0x64,
    ]
}

/// The answer to Attach; it does not depend on the request.
pub open spec fn attach_frame() -> Seq<u8> {
    seq![
        0x00u8, 0x00, 0x00, 0x20,
        0x02, 0x00, 0x00, 0x00,
        0x00, 0x53, 0x12, 0xC0,
        0x00, 0x00, 0x00, 0x00,
        0x00, 0x00, 0x00, 0x00,
        0x00, 0x01, 0x00, 0x00,
        0x00, 0x00, 0x00, 0x00,
        0x00, 0x00, 0x00, 0x00,
    ]
}

/// The Flow frame that grants `window` in both directions.
pub open spec fn flow_frame(window: u32) -> Seq<u8> {
    seq![0x00u8, 0x00, 0x00, 0x1C, 0x02, 0x00, 0x00, 0x00, 0x00, 0x53, 0x13, 0xC0]
        + seq![0x00u8, 0x00, 0x00, 0x00]
        + be_bytes(window)
        + seq![0x00u8, 0x00, 0x00, 0x01]
        + be_bytes(window)
}

/// The Disposition frame that accepts the single delivery `delivery_id`.
pub open spec fn disposition_frame(delivery_id: u32) -> Seq<u8> {
    seq![0x00u8, 0x00, 0x00, 0x18, 0x02, 0x00, 0x00, 0x00, 0x00, 0x53, 0x15, 0xC0]
        + seq![0x01u8, 0x00, 0x00, 0x00]
        + be_bytes(delivery_id)
        + be_bytes(delivery_id)
        + seq![0x00u8, 0x24, 0x00, 0x00]
}

/// The size field of a transfer frame: header plus payload, cut to 32 bits.
pub open spec fn transfer_size(payload_len: nat) -> u32 {
    ((20 + payload_len) % 0x1_0000_0000) as u32
}

/// The Transfer frame that carries `payload` as delivery `delivery_id`.
pub open spec fn transfer_frame(delivery_id: u32, payload: Seq<u8>) -> Seq<u8> {
    be_bytes(transfer_size(payload.len()))
        + seq![0x02u8, 0x00, 0x00, 0x00]
        + seq![0x00u8, 0x53, 0x14, 0xC0]
        + be_bytes(delivery_id)
        + seq![0x01u8, 0x00, 0x00, 0x00]
        + payload
}

/// Whether the performative `code` is announced at index `i` of `data`.
pub open spec fn marks(data: Seq<u8>, i: int, code: u8) -> bool {
    0 <= i && i + 1 < data.len() && data[i] == 0x53 && data[i + 1] == code
}

/// Whether `data` is long enough to be a frame and announces `code`
/// somewhere behind the size field and before its last three bytes.
pub open spec fn has_performative(data: Seq<u8>, code: u8) -> bool {
    data.len() >= 8 && exists|i: int| 4 <= i < data.len() - 3 && marks(data, i, code)
}

/// Appends the four bytes of `word` to `frame`.
fn push_word(frame: &mut Vec<u8>, word: [u8; 4])
    ensures
        final(frame)@ == old(frame)@ + word@,
{
    frame.push(word[0]);
    frame.push(word[1]);
    frame.push(word[2]);
    frame.push(word[3]);
    assert(frame@ =~= old(frame)@ + word@);
}

pub fn create_sasl_mechanisms_frame() -> (frame: Vec<u8>)
    ensures
        frame@ == sasl_mechanisms_frame(),
{
    let mut frame: Vec<u8> = Vec::new();
    push_word(&mut frame, [0x00, 0x00, 0x00, 0x20]);
    push_word(&mut frame, [0x02, 0x01, 0x00, 0x00]);
    push_word(&mut frame, [0x00, 0x53, 0x40, 0xC0]);
    push_word(&mut frame, [0x03, 0xA3, 0x05, 0x50]);
    push_word(&mut frame, [0x4C, 0x41, 0x49, 0x4E]);
    push_word(&mut frame, [0x00, 0x00, 0x00, 0x00]);
    assert(frame@ =~= sasl_mechanisms_frame());
    frame
}

pub fn create_sasl_outcome_frame(success: bool) -> (frame: Vec<u8>)
    ensures
        frame@ == sasl_outcome_frame(if success { 0u8 } else { 1u8 }),
{
    let code: u8 = if success { 0 } else { 1 };
    let mut frame: Vec<u8> = Vec::new();
    push_word(&mut frame, [0x00, 0x00, 0x00, 0x10]);
    push_word(&mut frame, [0x02, 0x01, 0x00, 0x00]);
    push_word(&mut frame, [0x00, 0x53, 0x44, 0x43]);
    push_word(&mut frame, [code, 0x00, 0x00, 0x00]);
    push_word(&mut frame, [0x00, 0x00, 0x00, 0x00]);
    assert(frame@ =~= sasl_outcome_frame(code));
    frame
}

pub fn create_open_response() -> (frame: Vec<u8>)
    ensures
        frame@ == open_frame(),
{
    let mut frame: Vec<u8> = Vec::new();
    push_word(&mut frame, [0x00, 0x00, 0x00, 0x18]);
    push_word(&mut frame, [0x02, 0x00, 0x00, 0x00]);
    push_word(&mut frame, [0x00, 0x53, 0x10, 0xD0]);
    push_word(&mut frame, [0x00, 0x00, 0x00, 0x00]);
    push_word(&mut frame, [0x00, 0x00, 0x00, 0x00]);
    push_word(&mut frame, [0x00, 0x00, 0x27, 0x10]);
    assert(frame@ =~= open_frame());
    frame
}

pub fn create_begin_response() -> (frame: Vec<u8>)
    ensures
        frame@ == begin_frame(),
{
    let mut frame: Vec<u8> = Vec::new();
    push_word(&mut frame, [0x00, 0x00, 0x00, 0x1C]);
    push_word(&mut frame, [0x02, 0x00, 0x00, 0x00]);
    push_word(&mut frame, [0x00, 0x53, 0x11, 0xC0]);
    push_word(&mut frame, [0x00, 0x00, 0x00, 0x00]);
    push_word(&mut frame, [0x00, 0x00, 0x00, 0x01]);
    push_word(&mut frame, [0x00, 0x00, 0x00, 0x64]);
    push_word(&mut frame, [0x00, 0x00, 0x00, 0x64]);
    assert(frame@ =~= begin_frame());
    frame
}

/// Answers an Attach. The request is accepted as it is: nothing of it is
/// echoed, so the answer is the same for every `frame_data`.
pub fn create_attach_response(frame_data: &[u8]) -> (frame: Vec<u8>)
    ensures
        frame@ == attach_frame(),
{
    let mut frame: Vec<u8> = Vec::new();
    push_word(&mut frame, [0x00, 0x00, 0x00, 0x20]);
    push_word(&mut frame, [0x02, 0x00, 0x00, 0x00]);
    push_word(&mut frame, [0x00, 0x53, 0x12, 0xC0]);
    push_word(&mut frame, [0x00, 0x00, 0x00, 0x00]);
    push_word(&mut frame, [0x00, 0x00, 0x00, 0x00]);
    push_word(&mut frame, [0x00, 0x01, 0x00, 0x00]);
    push_word(&mut frame, [0x00, 0x00, 0x00, 0x00]);
    push_word(&mut frame, [0x00, 0x00, 0x00, 0x00]);
    assert(frame@ =~= attach_frame());
    frame
}

pub fn create_flow_frame(window_size: u32) -> (frame: Vec<u8>)
    ensures
        frame@ == flow_frame(window_size),
{
    let size_bytes = to_be_bytes(window_size);
    let mut frame: Vec<u8> = Vec::new();
    push_word(&mut frame, [0x00, 0x00, 0x00, 0x1C]);
    push_word(&mut frame, [0x02, 0x00, 0x00, 0x00]);
    push_word(&mut frame, [0x00, 0x53, 0x13, 0xC0]);
    push_word(&mut frame, [0x00, 0x00, 0x00, 0x00]);
    push_word(&mut frame, size_bytes);
    push_word(&mut frame, [0x00, 0x00, 0x00, 0x01]);
    push_word(&mut frame, size_bytes);
    assert(frame@ =~= flow_frame(window_size));
    frame
}

/// The frame that accepts delivery `delivery_id`.
pub fn disposition_for(delivery_id: u32) -> (frame: Vec<u8>)
    ensures
        frame@ == disposition_frame(delivery_id),
{
    let id_bytes = to_be_bytes(delivery_id);
    let mut frame: Vec<u8> = Vec::new();
    push_word(&mut frame, [0x00, 0x00, 0x00, 0x18]);
    push_word(&mut frame, [0x02, 0x00, 0x00, 0x00]);
    push_word(&mut frame, [0x00, 0x53, 0x15, 0xC0]);
    push_word(&mut frame, [0x01, 0x00, 0x00, 0x00]);
    push_word(&mut frame, id_bytes);
    push_word(&mut frame, id_bytes);
    push_word(&mut frame, [0x00, 0x24, 0x00, 0x00]);
    assert(frame@ =~= disposition_frame(delivery_id));
    frame
}

/// The delivery that a Disposition acknowledges for a received frame: the
/// frame's delivery id, or 1 where it has none.
pub open spec fn acknowledged_id(frame: Seq<u8>) -> u32 {
    match delivery_id(frame) {
        Some(id) => id,
        None => 1,
    }
}

/// Accepts the delivery that `frame_data` transfers.
pub fn create_disposition_frame(frame_data: &[u8]) -> (frame: Vec<u8>)
    ensures
        frame@ == disposition_frame(acknowledged_id(frame_data@)),
{
    let id = match extract_delivery_id(frame_data) {
        Some(id) => id,
        None => 1,
    };
    disposition_for(id)
}

pub fn create_transfer_frame(delivery_id: u32, message_data: &[u8]) -> (frame: Vec<u8>)
    ensures
        frame@ == transfer_frame(delivery_id, message_data@),
{
    let len: u64 = message_data.len() as u64;
    let size: u32 = ((len % 0x1_0000_0000 + 20) % 0x1_0000_0000) as u32;
    assert(size == transfer_size(message_data@.len()));
    let mut frame: Vec<u8> = Vec::new();
    push_word(&mut frame, to_be_bytes(size));
    push_word(&mut frame, [0x02, 0x00, 0x00, 0x00]);
    push_word(&mut frame, [0x00, 0x53, 0x14, 0xC0]);
    push_word(&mut frame, to_be_bytes(delivery_id));
    push_word(&mut frame, [0x01, 0x00, 0x00, 0x00]);
    frame.extend_from_slice(message_data);
    assert(frame@ =~= transfer_frame(delivery_id, message_data@));
    frame
}

/// Looks for the announcement of `code` behind the size field and before
/// the last three bytes of `data`.
pub fn scan_performative(data: &[u8], code: u8) -> (found: bool)
    ensures
        found == has_performative(data@, code),
{
    if data.len() < 8 {
        return false;
    }
    let end: usize = data.len() - 3;
    let mut i: usize = 4;
    while i < end
        invariant
            4 <= i <= end,
            end == data.len() - 3,
            forall|j: int| 4 <= j < i ==> !marks(data@, j, code),
        decreases end - i,
    {
        if data[i] == DESCRIBED && data[i + 1] == code {
            assert(marks(data@, i as int, code));
            return true;
        }
        i += 1;
    }
    false
}

pub fn is_sasl_init_frame(data: &[u8]) -> (found: bool)
    ensures
        found == has_performative(data@, SASL_INIT),
{
    scan_performative(data, SASL_INIT)
}

pub fn is_open_frame(data: &[u8]) -> (found: bool)
    ensures
        found == has_performative(data@, OPEN),
{
    scan_performative(data, OPEN)
}

pub fn is_begin_frame(data: &[u8]) -> (found: bool)
    ensures
        found == has_performative(data@, BEGIN),
{
    scan_performative(data, BEGIN)
}

pub fn is_attach_frame(data: &[u8]) -> (found: bool)
    ensures
        found == has_performative(data@, ATTACH),
{
    scan_performative(data, ATTACH)
}

pub fn is_transfer_frame(data: &[u8]) -> (found: bool)
    ensures
        found == has_performative(data@, TRANSFER),
{
    scan_performative(data, TRANSFER)
}

/// A transfer frame is recognised as one, names its delivery, and carries
/// its payload behind the twenty bytes of its header: every payload, the
/// empty one too, is read back whole.
pub proof fn lemma_transfer_round_trip(id: u32, payload: Seq<u8>)
    ensures
        transfer_frame(id, payload).len() == 20 + payload.len(),
        transfer_frame(id, payload).skip(20) == payload,
        has_performative(transfer_frame(id, payload), 0x14),
        delivery_id(transfer_frame(id, payload)) == Some(id),
        acknowledged_id(transfer_frame(id, payload)) == id,
        message_data(transfer_frame(id, payload)) == Some(payload),
{
    let frame = transfer_frame(id, payload);
    assert(frame.len() == 20 + payload.len());
    assert(frame.skip(20) =~= payload);
    assert(frame[4] == 0x02 && frame[5] == 0x00 && frame[6] == 0x00 && frame[7] == 0x00);
    assert(frame[8] == 0x00 && frame[9] == 0x53 && frame[10] == 0x14);
    assert(marks(frame, 9, 0x14));
    assert(first_transfer_at(frame, 9)) by {
        assert(!marks(frame, 4, 0x14));
        assert(!marks(frame, 5, 0x14));
        assert(!marks(frame, 6, 0x14));
        assert(!marks(frame, 7, 0x14));
        assert(!marks(frame, 8, 0x14));
    }
    lemma_first_transfer(frame, 9);
    assert(frame[12] == be_bytes(id)[0]);
    assert(frame[13] == be_bytes(id)[1]);
    assert(frame[14] == be_bytes(id)[2]);
    assert(frame[15] == be_bytes(id)[3]);
    lemma_be_round_trip(id);
}

} // verus!
