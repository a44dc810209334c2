use vstd::prelude::*;

verus! {

/// A point in time, in microseconds.
pub type Time = u64;

/// A span of time, in microseconds.
pub type Duration = u64;

} // verus!
