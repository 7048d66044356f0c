//! Instants. A `chrono::DateTime<Utc>` is held in the library as whole
//! seconds since the Unix epoch plus the nanoseconds past that second.

use vstd::prelude::*;

verus! {

/// A point in time: seconds since the Unix epoch and the nanoseconds since the
/// last second boundary.
#[derive(Debug, Clone, Copy, PartialEq, Eq, Structural)]
pub struct Timestamp {
    pub secs: i64,
    pub nanos: u32,
}

/// The order of instants (that of `DateTime<Utc>`): by seconds, then nanoseconds.
pub open spec fn ts_le(a: Timestamp, b: Timestamp) -> bool {
    a.secs < b.secs || (a.secs == b.secs && a.nanos <= b.nanos)
}

impl Timestamp {
    /// Whether `self` is no later than `other`.
    pub fn le(&self, other: &Timestamp) -> (r: bool)
        ensures
            r == ts_le(*self, *other),
    {
        self.secs < other.secs || (self.secs == other.secs && self.nanos <= other.nanos)
    }

    /// The same instant with the sub-second part dropped (`with_nanosecond(0)`).
    pub fn whole_seconds(&self) -> (r: Timestamp)
        ensures
            r == (Timestamp { secs: self.secs, nanos: 0 }),
    {
        Timestamp { secs: self.secs, nanos: 0 }
    }
}

/// Reads the clock with `chrono::Utc::now`. The result depends on the time;
/// the source builds it from a `Duration` since the epoch, so the seconds are
/// not negative and the nanoseconds are below one second. (The source panics
/// when the system clock reads a time before the epoch: a state of the
/// machine, not of any argument.)
#[verifier::external_body]
pub(crate) fn now() -> (r: Timestamp)
    ensures
        r.secs >= 0,
        r.nanos < 1_000_000_000,
{
    let t = chrono::Utc::now();
    Timestamp { secs: t.timestamp(), nanos: t.timestamp_subsec_nanos() }
}

/// Whether `chrono::DateTime::from_timestamp` accepts `secs` whole seconds
/// since the epoch (it refuses seconds outside the dates it can represent).
pub uninterp spec fn seconds_representable(secs: i64) -> bool;

/// The instant `secs` whole seconds after the epoch, made with
/// `chrono::DateTime::from_timestamp(secs, 0)`; `None` when chrono refuses the
/// seconds (named `seconds_representable`). The instant it makes has exactly
/// those seconds and no nanoseconds.
#[verifier::external_body]
pub(crate) fn timestamp_from_secs(secs: i64) -> (r: Option<Timestamp>)
    ensures
        r is Some <==> seconds_representable(secs),
        r matches Some(t) ==> t == (Timestamp { secs, nanos: 0 }),
{
    chrono::DateTime::from_timestamp(secs, 0).map(|t| Timestamp { secs: t.timestamp(), nanos: t.timestamp_subsec_nanos() })
}

} // verus!
