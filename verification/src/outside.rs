//! The calls that leave this crate. Each function here is believed, not
//! proved: its body is one call into another crate, or into a part of the
//! standard library that the verifier knows nothing of, and its contract
//! says what that call is documented to return.

use vstd::prelude::*;
use vstd::utf8::{decode_utf8, valid_utf8};

verus! {

/// The text that lossy UTF-8 decoding gives for a byte sequence: valid
/// sequences decode to their characters, and each maximal invalid part is
/// replaced by U+FFFD.
pub uninterp spec fn lossy_text(bytes: Seq<u8>) -> Seq<char>;

/// Decodes `data` as UTF-8, replacing what is invalid.
///
/// Calls `String::from_utf8_lossy`. The contract gives the result the name
/// [`lossy_text`]: the decoding depends on the bytes alone. Bytes that
/// are UTF-8 are documented to come back as the text they encode, with
/// nothing replaced.
#[verifier::external_body]
pub(crate) fn utf8_lossy(data: &[u8]) -> (text: String)
    ensures
        text@ == lossy_text(data@),
        valid_utf8(data@) ==> text@ == decode_utf8(data@),
{
    String::from_utf8_lossy(data).into_owned()
}

/// A lower-case hexadecimal digit.
pub open spec fn is_lower_hex(c: char) -> bool {
    ('0' <= c && c <= '9') || ('a' <= c && c <= 'f')
}

/// The hyphenated form of a UUID: 36 characters, hyphens at the indices 8,
/// 13, 18 and 23, lower-case hexadecimal digits elsewhere.
pub open spec fn is_uuid_text(s: Seq<char>) -> bool {
    &&& s.len() == 36
    &&& forall|i: int|
        0 <= i < 36 ==> if i == 8 || i == 13 || i == 18 || i == 23 {
            #[trigger] s[i] == '-'
        } else {
            is_lower_hex(s[i])
        }
}

/// A fresh random UUID in its hyphenated lower-case form.
///
/// Calls `uuid::Uuid::new_v4` and renders the result with `to_string`. The
/// value is random, so the contract states the shape of the text alone.
/// The call panics where the operating system hands out no random bytes.
#[verifier::external_body]
pub(crate) fn random_uuid() -> (id: String)
    ensures
        is_uuid_text(id@),
{
    uuid::Uuid::new_v4().to_string()
}

/// The text of standard base64 with padding for a byte sequence.
pub uninterp spec fn base64_text(bytes: Seq<u8>) -> Seq<char>;

/// Whether the length of the base64 text of `len` bytes fits the machine:
/// four characters for every three bytes or part of three.
pub open spec fn base64_fits(len: nat) -> bool {
    (len / 3 + 1) * 4 <= usize::MAX
}

/// Encodes `data` in standard base64 with padding.
///
/// Calls `encode` of `base64::engine::general_purpose::STANDARD`. The text
/// depends on the bytes alone and gets the name [`base64_text`]. The call
/// panics where the length of the text does not fit a `usize`; the
/// precondition leaves those inputs out.
#[verifier::external_body]
pub(crate) fn base64_standard(data: &[u8]) -> (text: String)
    requires
        base64_fits(data@.len()),
    ensures
        text@ == base64_text(data@),
{
    base64::Engine::encode(&base64::engine::general_purpose::STANDARD, data)
}

/// The text that describes why a byte sequence is not UTF-8; none for a
/// sequence that is.
pub uninterp spec fn utf8_fault_text(bytes: Seq<u8>) -> Option<Seq<char>>;

/// What is wrong with `data` as UTF-8: nothing, or the description of the
/// first invalid part.
///
/// Calls `std::str::from_utf8` and renders its error with `to_string`.
/// Whether there is an error, and what it says, depends on the bytes
/// alone and gets the name [`utf8_fault_text`]. The call is documented to
/// fail on exactly the byte sequences that are not UTF-8.
#[verifier::external_body]
pub(crate) fn utf8_fault(data: &[u8]) -> (fault: Option<String>)
    ensures
        (fault is None) == valid_utf8(data@),
        match fault {
            Some(text) => utf8_fault_text(data@) == Some(text@),
            None => utf8_fault_text(data@) is None,
        },
{
    match std::str::from_utf8(data) {
        Ok(_) => None,
        Err(error) => Some(error.to_string()),
    }
}

/// The current time in UTC: the whole seconds since the start of 1970
/// and the nanoseconds of the second that has begun.
///
/// Calls `chrono::Utc::now` and reads the result with `timestamp` and
/// `timestamp_subsec_nanos`. The value depends on the clock; the contract
/// states what holds of every reading: the seconds are not negative and
/// the nanoseconds are below a second. The call panics where the clock
/// of the system stands before 1970.
#[verifier::external_body]
pub(crate) fn utc_now() -> (now: (i64, u32))
    ensures
        0 <= now.0,
        now.1 < 1_000_000_000,
{
    let now = chrono::Utc::now();
    (now.timestamp(), now.timestamp_subsec_nanos())
}

/// The text of a point in time in UTC, given as seconds since the start
/// of 1970 and nanoseconds, such as `2015-05-15 00:00:00 UTC`; none where
/// the values name no point in time.
pub uninterp spec fn utc_text(secs: int, nanos: int) -> Option<Seq<char>>;

/// Renders a point in time in UTC.
///
/// Calls `to_string` on what `chrono::DateTime::from_timestamp` makes of
/// the two numbers. The text depends on them alone and gets the name
/// [`utc_text`].
#[verifier::external_body]
pub(crate) fn render_utc(secs: i64, nanos: u32) -> (text: Option<String>)
    ensures
        match text {
            Some(t) => utc_text(secs as int, nanos as int) == Some(t@),
            None => utc_text(secs as int, nanos as int) is None,
        },
{
    chrono::DateTime::from_timestamp(secs, nanos).map(|time| time.to_string())
}

/// The text of a point in time in UTC in the form of RFC 3339, such as
/// `2015-05-15T00:00:00+00:00`; none where the values name no point in
/// time.
pub uninterp spec fn rfc3339_text(secs: int, nanos: int) -> Option<Seq<char>>;

/// Renders a point in time in UTC in the form of RFC 3339.
///
/// Calls `chrono::DateTime::to_rfc3339` on what
/// `chrono::DateTime::from_timestamp` makes of the two numbers. The text
/// depends on them alone and gets the name [`rfc3339_text`].
#[verifier::external_body]
pub(crate) fn render_rfc3339(secs: i64, nanos: u32) -> (text: Option<String>)
    ensures
        match text {
            Some(t) => rfc3339_text(secs as int, nanos as int) == Some(t@),
            None => rfc3339_text(secs as int, nanos as int) is None,
        },
{
    chrono::DateTime::from_timestamp(secs, nanos).map(|time| time.to_rfc3339())
}

} // verus!
