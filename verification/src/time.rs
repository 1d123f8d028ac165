//! Instants on the UTC time line, as seconds and nanoseconds since the Unix epoch.

use chrono::DateTime;
use vstd::prelude::*;

verus! {

/// The text of an instant in the format of RFC 3339, as the `chrono` crate
/// writes it for UTC. The instant is given by its seconds and nanoseconds.
pub uninterp spec fn rfc3339_text(secs: int, nanos: int) -> Seq<char>;

/// `DateTime::from_timestamp` of the `chrono` crate, then `to_rfc3339` on
/// what it built. The contract claims that a valid timestamp is one that
/// `chrono` can build, and names the text: it is a function of the two
/// numbers alone, since the offset is always UTC.
#[verifier::external_body]
fn format_rfc3339(secs: i64, nanos: u32) -> (text: Option<String>)
    ensures
        (Timestamp { secs, nanos }).is_valid() ==> text is Some,
        text matches Some(t) ==> t@ == rfc3339_text(secs as int, nanos as int),
{
    match DateTime::from_timestamp(secs, nanos) {
        Some(instant) => Some(instant.to_rfc3339()),
        None => None,
    }
}

/// Seconds of `0000-01-01T00:00:00Z`, the earliest instant a valid timestamp may hold.
pub const MIN_TIMESTAMP_SECS: i64 = -62_167_219_200;

/// Seconds of `9999-12-31T23:59:59Z`, the latest second a valid timestamp may hold.
pub const MAX_TIMESTAMP_SECS: i64 = 253_402_300_799;

/// Nanoseconds in one second.
pub const NANOS_PER_SEC: u32 = 1_000_000_000;

/// An instant in UTC: whole seconds since the Unix epoch and the nanoseconds
/// into that second.
#[derive(Clone, Copy, Debug, PartialEq, Eq, Structural)]
pub struct Timestamp {
    pub secs: i64,
    pub nanos: u32,
}

impl Timestamp {
    /// A timestamp is valid when its year has four digits and its nanoseconds
    /// stay within one second. Only valid timestamps can be written as text.
    pub open spec fn is_valid(self) -> bool {
        &&& MIN_TIMESTAMP_SECS <= self.secs <= MAX_TIMESTAMP_SECS
        &&& self.nanos < NANOS_PER_SEC
    }

    /// The instant as one number: nanoseconds since the epoch.
    pub open spec fn as_nanos(self) -> int {
        self.secs * (NANOS_PER_SEC as int) + self.nanos
    }

    /// `self` is not later than `other`: seconds decide, nanoseconds break the tie.
    pub open spec fn at_or_before(self, other: Timestamp) -> bool {
        self.secs < other.secs || (self.secs == other.secs && self.nanos <= other.nanos)
    }

    /// `self` moved forward by `seconds`, where that is a valid timestamp.
    pub open spec fn plus_seconds(self, seconds: int) -> Option<Timestamp> {
        if self.is_valid() && MIN_TIMESTAMP_SECS <= self.secs + seconds <= MAX_TIMESTAMP_SECS {
            Some(Timestamp { secs: (self.secs + seconds) as i64, nanos: self.nanos })
        } else {
            None
        }
    }

    /// Builds a timestamp, refusing what is not valid.
    pub fn new(secs: i64, nanos: u32) -> (result: Option<Timestamp>)
        ensures
            result == (if (Timestamp { secs, nanos }).is_valid() {
                Some(Timestamp { secs, nanos })
            } else {
                None
            }),
    {
        if MIN_TIMESTAMP_SECS <= secs && secs <= MAX_TIMESTAMP_SECS && nanos < NANOS_PER_SEC {
            Some(Timestamp { secs, nanos })
        } else {
            None
        }
    }

    /// Whether the timestamp is valid.
    pub fn check_valid(&self) -> (result: bool)
        ensures
            result == self.is_valid(),
    {
        MIN_TIMESTAMP_SECS <= self.secs && self.secs <= MAX_TIMESTAMP_SECS && self.nanos
            < NANOS_PER_SEC
    }

    /// Whether `self` is not later than `other`.
    pub fn is_at_or_before(&self, other: &Timestamp) -> (result: bool)
        ensures
            result == self.at_or_before(*other),
    {
        self.secs < other.secs || (self.secs == other.secs && self.nanos <= other.nanos)
    }

    /// The timestamp in the format of RFC 3339.
    pub fn to_rfc3339(&self) -> (text: String)
        requires
            self.is_valid(),
        ensures
            text@ == rfc3339_text(self.secs as int, self.nanos as int),
    {
        match format_rfc3339(self.secs, self.nanos) {
            Some(text) => text,
            None => String::new(),
        }
    }

    /// Moves a valid timestamp by a number of seconds; `None` where the
    /// timestamp is not valid or the result would not be.
    pub fn checked_add_seconds(&self, seconds: i64) -> (result: Option<Timestamp>)
        ensures
            result == self.plus_seconds(seconds as int),
    {
        if !self.check_valid() {
            return None;
        }
        match self.secs.checked_add(seconds) {
            Some(secs) => {
                if MIN_TIMESTAMP_SECS <= secs && secs <= MAX_TIMESTAMP_SECS {
                    Some(Timestamp { secs, nanos: self.nanos })
                } else {
                    None
                }
            },
            None => None,
        }
    }
}

/// For valid timestamps, "not later than" is the order of the instants.
pub proof fn lemma_at_or_before_is_order(a: Timestamp, b: Timestamp)
    requires
        a.nanos < NANOS_PER_SEC,
        b.nanos < NANOS_PER_SEC,
    ensures
        a.at_or_before(b) <==> a.as_nanos() <= b.as_nanos(),
{
    assert(a.secs < b.secs ==> a.secs * 1_000_000_000 + 1_000_000_000 <= b.secs * 1_000_000_000);
    assert(b.secs < a.secs ==> b.secs * 1_000_000_000 + 1_000_000_000 <= a.secs * 1_000_000_000);
}

} // verus!
