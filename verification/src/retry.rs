//! Bounded retry bookkeeping for the two fatal retry loops: candidate-list
//! downloads and the provider credential check.
//!
//! The counter hands the surrounding loop an exact budget: an attempt may be
//! made while the counter is not exhausted, every failure uses up exactly
//! one attempt, and exhaustion falls exactly on the configured limit.

use vstd::prelude::*;

verus! {

/// How many times a candidate-list download is attempted before the run
/// fails.
pub const DOWNLOAD_ATTEMPT_LIMIT: u32 = 5;

/// How many times the provider credential check is attempted before the run
/// fails.
pub const CREDENTIAL_ATTEMPT_LIMIT: u32 = 10;

/// Counts failed attempts against a fixed limit.
#[derive(Clone, Copy, Debug, PartialEq, Eq, Structural)]
pub struct RetryCounter {
    pub limit: u32,
    pub failures: u32,
}

impl RetryCounter {
    /// The counter never records more failures than its limit.
    pub open spec fn wf(self) -> bool {
        self.failures <= self.limit
    }

    /// A fresh counter with the given attempt budget.
    pub fn new(limit: u32) -> (r: Self)
        ensures
            r.wf(),
            r.limit == limit,
            r.failures == 0,
    {
        RetryCounter { limit, failures: 0 }
    }

    /// Whether another attempt may still be made.
    pub fn may_attempt(&self) -> (r: bool)
        ensures
            r == (self.failures < self.limit),
    {
        self.failures < self.limit
    }

    /// Whether the whole budget has been used up; reaching this after a
    /// failure makes the operation fatal for the run.
    pub fn exhausted(&self) -> (r: bool)
        ensures
            r == (self.failures >= self.limit),
    {
        self.failures >= self.limit
    }

    /// Record one failed attempt.
    pub fn record_failure(&mut self)
        requires
            old(self).wf(),
            old(self).failures < old(self).limit,
        ensures
            final(self).wf(),
            final(self).limit == old(self).limit,
            final(self).failures == old(self).failures + 1,
    {
        self.failures = self.failures + 1;
    }
}

/// The retry loop as a function of its attempt outcomes: given what each
/// attempt would return, it succeeds exactly when one of the first `limit`
/// attempts succeeds, stops right after the first success, and otherwise
/// uses the whole budget — neither an extra nor a missing attempt.
pub fn attempts_used(outcomes: &Vec<bool>, limit: u32) -> (r: (bool, usize))
    requires
        outcomes@.len() >= limit,
    ensures
        r.1 <= limit,
        r.0 ==> r.1 >= 1 && outcomes@[r.1 - 1] && forall|j: int| 0 <= j < r.1 - 1 ==> !outcomes@[j],
        !r.0 ==> r.1 == limit && forall|j: int| 0 <= j < limit ==> !outcomes@[j],
{
    let limit_usize = limit as usize;
    let mut i: usize = 0;
    while i < limit_usize
        invariant
            limit_usize == limit,
            outcomes@.len() >= limit,
            0 <= i <= limit_usize,
            forall|j: int| 0 <= j < i ==> !outcomes@[j],
        decreases limit_usize - i,
    {
        if outcomes[i] {
            return (true, i + 1);
        }
        i += 1;
    }
    (false, limit_usize)
}

} // verus!
