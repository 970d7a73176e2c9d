//! Instants in time as plain numbers, and the clock that gives them.

use vstd::prelude::*;

verus! {

/// An instant in UTC: whole seconds since the Unix epoch, and the
/// nanoseconds into that second.
#[derive(Clone, Copy, Debug, PartialEq, Eq, PartialOrd, Ord, Structural)]
pub struct Timestamp {
    pub secs: i64,
    pub nanos: u32,
}

impl Timestamp {
    /// `self` is not later than `other`.
    pub open spec fn not_after(self, other: Timestamp) -> bool {
        self.secs < other.secs || (self.secs == other.secs && self.nanos <= other.nanos)
    }

    /// `self` is earlier than `other`.
    pub open spec fn earlier_than(self, other: Timestamp) -> bool {
        self.secs < other.secs || (self.secs == other.secs && self.nanos < other.nanos)
    }

    /// The later of the two instants.
    pub open spec fn latest(self, other: Timestamp) -> Timestamp {
        if self.not_after(other) {
            other
        } else {
            self
        }
    }

    /// The instant `secs` seconds and `nanos` nanoseconds after the epoch.
    pub fn new(secs: i64, nanos: u32) -> (t: Timestamp)
        ensures
            t == (Timestamp { secs, nanos }),
    {
        Timestamp { secs, nanos }
    }

    /// Whether `self` is not later than `other`.
    pub fn at_or_before(&self, other: &Timestamp) -> (b: bool)
        ensures
            b == self.not_after(*other),
    {
        self.secs < other.secs || (self.secs == other.secs && self.nanos <= other.nanos)
    }

    /// Whether `self` is earlier than `other`.
    pub fn before(&self, other: &Timestamp) -> (b: bool)
        ensures
            b == self.earlier_than(*other),
    {
        self.secs < other.secs || (self.secs == other.secs && self.nanos < other.nanos)
    }

    /// The later of the two instants.
    pub fn later_of(self, other: Timestamp) -> (t: Timestamp)
        ensures
            t == self.latest(other),
    {
        if self.at_or_before(&other) {
            other
        } else {
            self
        }
    }

    /// An instant as a clock reads it: not before the Unix epoch, with
    /// less than a second of nanoseconds.
    pub open spec fn is_reading(self) -> bool {
        self.secs >= 0 && self.nanos < 1_000_000_000
    }

    /// The current instant, as the system clock has it: which instant that
    /// is only the clock knows, but it is a reading of a clock.
    pub fn now() -> (t: Timestamp)
        ensures
            t.is_reading(),
    {
        utc_now()
    }
}

/// `chrono::Utc::now`, taken apart with `DateTime::timestamp` and
/// `DateTime::timestamp_subsec_nanos`. Which instant comes back is not
/// claimed: the system clock may stand anywhere and may step back. What is
/// claimed holds of every reading: `Utc::now` builds the instant from the
/// time since the Unix epoch, so the seconds are not negative (the call does
/// not return where the clock stands before the epoch), and the nanoseconds
/// are the fraction of a second of a `Duration`, which is less than a second.
#[verifier::external_body]
fn utc_now() -> (t: Timestamp)
    ensures
        t.is_reading(),
{
    let now = chrono::Utc::now();
    Timestamp { secs: now.timestamp(), nanos: now.timestamp_subsec_nanos() }
}

/// `chrono::Utc::now` written by `DateTime::to_rfc3339`. Nothing is claimed
/// of the text.
#[verifier::external_body]
pub(crate) fn utc_now_rfc3339() -> String {
    chrono::Utc::now().to_rfc3339()
}

/// `chrono::Utc::now` written by `DateTime::format` as date, time and the
/// word UTC. Nothing is claimed of the text.
#[verifier::external_body]
pub(crate) fn utc_now_plain() -> String {
    chrono::Utc::now().format("%Y-%m-%d %H:%M:%S UTC").to_string()
}

} // verus!
