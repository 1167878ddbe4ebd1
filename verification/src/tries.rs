//! How many consecutive failures of the main loop (or the IMU interrupt) are
//! tolerated before the system is reset.
use vstd::prelude::*;

verus! {

/// Consecutive failures tolerated by the main loop.
pub const MAIN_LOOP_TRIES: u32 = 15;

/// Consecutive failures tolerated by the IMU interrupt.
pub const IMU_TRIES: u32 = 5;

/// A budget of failures: every success restores it, every failure uses one
/// try, and a failure with no tries left exhausts it.
pub struct Tries {
    left: u32,
    max: u32,
}

impl Tries {
    pub closed spec fn spec_left(&self) -> u32 {
        self.left
    }

    pub closed spec fn spec_max(&self) -> u32 {
        self.max
    }

    /// A full budget of `max` tries.
    pub fn new(max: u32) -> (t: Tries)
        ensures
            t.spec_left() == max,
            t.spec_max() == max,
    {
        Tries { left: max, max }
    }

    pub fn left(&self) -> (r: u32)
        ensures
            r == self.spec_left(),
    {
        self.left
    }

    /// Everything went well: the budget is full again.
    pub fn success(&mut self)
        ensures
            final(self).spec_left() == old(self).spec_max(),
            final(self).spec_max() == old(self).spec_max(),
    {
        self.left = self.max;
    }

    /// Something failed. Returns true when no tries were left: the system is
    /// to be reset. Otherwise one try is used.
    pub fn failure(&mut self) -> (exhausted: bool)
        ensures
            (exhausted, final(self).spec_left()) == spec_failure(old(self).spec_left()),
            final(self).spec_max() == old(self).spec_max(),
    {
        if self.left == 0 {
            true
        } else {
            self.left = self.left - 1;
            false
        }
    }
}

/// Whether a failure with `left` tries left exhausts the budget, and the tries
/// left afterwards.
pub open spec fn spec_failure(left: u32) -> (bool, u32) {
    if left == 0 {
        (true, 0)
    } else {
        (false, (left - 1) as u32)
    }
}

/// Whether any of `k` consecutive failures, starting with `left` tries left,
/// exhausts the budget.
pub open spec fn exhausted_within(left: u32, k: nat) -> bool
    decreases k,
{
    if k == 0 {
        false
    } else {
        spec_failure(left).0 || exhausted_within(spec_failure(left).1, (k - 1) as nat)
    }
}

/// With `left` tries left, the system survives `left` consecutive failures and
/// is reset at the next one.
pub proof fn lemma_failures_until_reset(left: u32)
    ensures
        !exhausted_within(left, left as nat),
        exhausted_within(left, left as nat + 1),
    decreases left,
{
    if left > 0 {
        lemma_failures_until_reset((left - 1) as u32);
    } else {
        assert(exhausted_within(0, 0) == false);
    }
}

} // verus!
