use vstd::prelude::*;

verus! {

/// The number of fractional bits of the fixed-point time values.
pub const FRAC_BITS: u32 = 24;

/// One unit of time (a second) in fixed-point bits.
pub const ONE: u64 = 0x100_0000;

/// A point in time: an unsigned fixed-point number of seconds with 24 fractional
/// bits (the bits of a `fixed::types::U40F24`).
pub type Time = u64;

/// The same representation as `Time`.
pub type Instant = u64;

/// A span of time: a signed fixed-point number of seconds with 24 fractional bits
/// (the bits of a `fixed::types::I40F24`).
pub type Duration = i64;

} // verus!
