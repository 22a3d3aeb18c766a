//! Points in time and calendar days, as the web layer compares them.
use vstd::prelude::*;

verus! {

/// A UTC point in time: whole seconds since the Unix epoch and the
/// nanoseconds within that second.
#[derive(Clone, Copy, Debug, PartialEq, Eq, Structural)]
pub struct Instant {
    pub secs: i64,
    pub nanos: u32,
}

/// `a` lies strictly before `b`.
pub open spec fn spec_before(a: Instant, b: Instant) -> bool {
    a.secs < b.secs || (a.secs == b.secs && a.nanos < b.nanos)
}

impl Instant {
    /// Whether `self` lies strictly before `other`.
    pub fn is_before(&self, other: &Instant) -> (r: bool)
        ensures
            r == spec_before(*self, *other),
    {
        self.secs < other.secs || (self.secs == other.secs && self.nanos < other.nanos)
    }
}

/// A calendar day, counted as chrono's `num_days_from_ce` counts it; days
/// compare as their counts do.
#[derive(Clone, Copy, Debug, PartialEq, Eq, Structural)]
pub struct Day {
    pub days_from_ce: i32,
}

} // verus!
