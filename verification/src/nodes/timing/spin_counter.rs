use vstd::prelude::*;

verus! {

/// Counts how many times it runs.
pub struct SpinCounter {}

impl SpinCounter {
    pub fn new() -> (s: Self) {
        Self {}
    }

    /// Adds one to the count.
    pub fn resume(&mut self, cycles_count: &mut u64)
        requires
            *old(cycles_count) < u64::MAX,
        ensures
            *final(cycles_count) == *old(cycles_count) + 1,
    {
        *cycles_count += 1;
    }
}

} // verus!
