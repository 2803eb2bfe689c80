use vstd::prelude::*;

verus! {

/// A point in time as Unix seconds plus a sub-second part in nanoseconds.
#[derive(Debug, Clone, Copy, PartialEq, Eq, Structural, Default)]
pub struct Timestamp {
    pub seconds: i64,
    pub nanos: i32,
}

impl Timestamp {
    /// `self` is not later than `other`.
    pub open spec fn spec_le(self, other: Timestamp) -> bool {
        self.seconds < other.seconds || (self.seconds == other.seconds && self.nanos
            <= other.nanos)
    }

    /// Compares two timestamps by seconds, then nanoseconds.
    pub fn le(&self, other: &Timestamp) -> (r: bool)
        ensures
            r == self.spec_le(*other),
    {
        self.seconds < other.seconds || (self.seconds == other.seconds && self.nanos
            <= other.nanos)
    }

    /// The later of two timestamps.
    pub fn latest(self, other: Timestamp) -> (r: Timestamp)
        ensures
            self.spec_le(r),
            other.spec_le(r),
            r == self || r == other,
    {
        if self.le(&other) {
            other
        } else {
            self
        }
    }

    /// Whole Unix seconds, with instants before the epoch counted as zero.
    pub fn unix_seconds(&self) -> (r: u64)
        ensures
            self.seconds >= 0 ==> r == self.seconds,
            self.seconds < 0 ==> r == 0,
    {
        if self.seconds >= 0 {
            self.seconds as u64
        } else {
            0
        }
    }
}

/// Relies on chrono::Utc::now, with DateTime::timestamp and
/// DateTime::timestamp_subsec_nanos, for the current wall-clock time.
#[verifier::external_body]
pub(crate) fn now() -> (r: Timestamp) {
    let t = chrono::Utc::now();
    Timestamp { seconds: t.timestamp(), nanos: t.timestamp_subsec_nanos() as i32 }
}

} // verus!
