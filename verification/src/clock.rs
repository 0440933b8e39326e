//! Points in time: read from the clock, and rendered as text.

use crate::outside::{render_rfc3339, render_utc, rfc3339_text, utc_now, utc_text};
use vstd::prelude::*;

verus! {

/// A point in time in UTC: whole seconds since the start of 1970, and the
/// nanoseconds of the second that has begun.
#[derive(Debug, Clone, Copy, PartialEq, Eq, Structural)]
pub struct Timestamp {
    pub secs: i64,
    pub nanos: u32,
}

/// What is written for a timestamp that names no point in time.
pub open spec fn invalid_timestamp() -> Seq<char> {
    "invalid timestamp"@
}

/// The text of a timestamp, such as `2015-05-15 00:00:00 UTC`.
pub open spec fn timestamp_text(timestamp: Timestamp) -> Seq<char> {
    match utc_text(timestamp.secs as int, timestamp.nanos as int) {
        Some(text) => text,
        None => invalid_timestamp(),
    }
}

/// The text of a timestamp in the form of RFC 3339, such as
/// `2015-05-15T00:00:00+00:00`.
pub open spec fn stamp_text(timestamp: Timestamp) -> Seq<char> {
    match rfc3339_text(timestamp.secs as int, timestamp.nanos as int) {
        Some(text) => text,
        None => invalid_timestamp(),
    }
}

/// Whether a timestamp can have come from the clock: it lies after the
/// start of 1970, and its nanoseconds are below a second.
pub open spec fn is_reading(timestamp: Timestamp) -> bool {
    0 <= timestamp.secs && timestamp.nanos < 1_000_000_000
}

impl Timestamp {
    /// The time that the clock shows.
    pub fn now() -> (timestamp: Self)
        ensures
            is_reading(timestamp),
    {
        let reading = utc_now();
        Timestamp { secs: reading.0, nanos: reading.1 }
    }

    /// The timestamp as text.
    pub fn render(&self) -> (text: String)
        ensures
            text@ == timestamp_text(*self),
    {
        match render_utc(self.secs, self.nanos) {
            Some(text) => text,
            None => String::from_str("invalid timestamp"),
        }
    }

    /// The timestamp as text in the form of RFC 3339.
    pub fn rfc3339(&self) -> (text: String)
        ensures
            text@ == stamp_text(*self),
    {
        match render_rfc3339(self.secs, self.nanos) {
            Some(text) => text,
            None => String::from_str("invalid timestamp"),
        }
    }
}

} // verus!
