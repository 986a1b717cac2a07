//! The politeness jitter: a randomized pause drawn from a fixed interval,
//! used between outbound requests so the remote server is not hammered at
//! a fixed beat.
use vstd::prelude::*;

verus! {

/// Relies on `rand::random_range` over a half-open `u64` interval: the
/// draw is uniform in `[lo, hi)` and panics on an empty interval, which
/// the precondition excludes. Nothing more is promised of a random value.
#[verifier::external_body]
fn random_between(lo: u64, hi: u64) -> (r: u64)
    requires
        lo < hi,
    ensures
        lo <= r < hi,
{
    rand::random_range(lo..hi)
}

/// A jittered delay: each draw lies in `[lo, hi)` milliseconds.
#[derive(Debug, Clone, Copy, PartialEq, Eq, Structural)]
pub struct RandomDuration {
    pub lo: u64,
    pub hi: u64,
}

impl RandomDuration {
    /// An interval of milliseconds to draw delays from.
    pub fn from_millis(lo: u64, hi: u64) -> (d: Self)
        requires
            lo < hi,
        ensures
            d.lo == lo,
            d.hi == hi,
    {
        RandomDuration { lo, hi }
    }

    /// Draws one delay, in milliseconds, from the interval.
    pub fn get(&self) -> (ms: u64)
        requires
            self.lo < self.hi,
        ensures
            self.lo <= ms < self.hi,
    {
        random_between(self.lo, self.hi)
    }
}

} // verus!
