//! Instants in UTC, as seconds and nanoseconds since the Unix epoch, and the two ways the
//! tools write them: RFC 3339 text and milliseconds.

use vstd::prelude::*;

verus! {

/// An instant in UTC: whole seconds since 1970-01-01T00:00:00Z and the nanoseconds past
/// them (at or above one second only during a leap second, as chrono keeps it).
#[derive(Debug, Clone, Copy, PartialEq, Eq, Structural)]
pub struct Timestamp {
    pub secs: i64,
    pub nanos: u32,
}

/// `a >= b` on instants.
pub open spec fn at_or_after(a: Timestamp, b: Timestamp) -> bool {
    a.secs > b.secs || (a.secs == b.secs && a.nanos >= b.nanos)
}

/// `a > b` on instants.
pub open spec fn after(a: Timestamp, b: Timestamp) -> bool {
    a.secs > b.secs || (a.secs == b.secs && a.nanos > b.nanos)
}

impl Timestamp {
    /// `self >= other`.
    pub fn is_at_or_after(&self, other: &Timestamp) -> (r: bool)
        ensures
            r == at_or_after(*self, *other),
    {
        self.secs > other.secs || (self.secs == other.secs && self.nanos >= other.nanos)
    }

    /// `self > other`.
    pub fn is_after(&self, other: &Timestamp) -> (r: bool)
        ensures
            r == after(*self, *other),
    {
        self.secs > other.secs || (self.secs == other.secs && self.nanos > other.nanos)
    }
}

/// The instant that chrono's `DateTime::parse_from_rfc3339` reads in `text`, if it reads one.
pub uninterp spec fn rfc3339_instant(text: Seq<char>) -> Option<Timestamp>;

/// `DateTime::parse_from_rfc3339(text).ok()`, converted to UTC (chrono). The contract names
/// the outcome and says no more of it.
#[verifier::external_body]
pub(crate) fn parse_rfc3339(text: &str) -> (r: Option<Timestamp>)
    ensures
        r == rfc3339_instant(text@),
{
    chrono::DateTime::parse_from_rfc3339(text).ok().map(
        |t| Timestamp { secs: t.timestamp(), nanos: t.timestamp_subsec_nanos() },
    )
}

/// The instant that chrono's `DateTime::from_timestamp_millis` makes of `ms`: `None` when it
/// lies outside chrono's range of dates.
pub uninterp spec fn millis_instant(ms: i64) -> Option<Timestamp>;

/// `Utc.timestamp_millis_opt(ms).single()` (chrono, through `DateTime::from_timestamp_millis`):
/// `None` out of chrono's range of dates, else the instant `ms` milliseconds after the epoch.
/// Which `ms` are in range is named, not stated.
#[verifier::external_body]
pub(crate) fn from_millis(ms: i64) -> (r: Option<Timestamp>)
    ensures
        r == millis_instant(ms),
        r matches Some(t) ==> t.secs == ms / 1000 && t.nanos == (ms % 1000) * 1_000_000,
{
    chrono::DateTime::from_timestamp_millis(ms).map(
        |t| Timestamp { secs: t.timestamp(), nanos: t.timestamp_subsec_nanos() },
    )
}

} // verus!
