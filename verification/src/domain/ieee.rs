//! Sign tests on IEEE-754 single-precision values held as their bit
//! pattern (`f32::to_bits`). Positive values, from the smallest subnormal
//! up to infinity, are exactly the patterns `1..=0x7f80_0000`; the patterns
//! above that with a clear sign bit are NaNs, and a set sign bit means
//! negative or negative zero.

use vstd::prelude::*;

verus! {

/// The pattern of `1.0`.
pub const ONE: u32 = 0x3f80_0000;

/// The pattern of positive infinity.
pub const INFINITY: u32 = 0x7f80_0000;

/// The value is greater than zero (`x > 0.0`; infinity included, NaN not).
pub open spec fn spec_is_positive(bits: u32) -> bool {
    1 <= bits <= INFINITY
}

/// The value is finite and greater than zero (`x.is_finite() && x > 0.0`).
pub open spec fn spec_is_positive_finite(bits: u32) -> bool {
    1 <= bits < INFINITY
}

pub fn is_positive(bits: u32) -> (r: bool)
    ensures
        r == spec_is_positive(bits),
{
    1 <= bits && bits <= INFINITY
}

pub fn is_positive_finite(bits: u32) -> (r: bool)
    ensures
        r == spec_is_positive_finite(bits),
{
    1 <= bits && bits < INFINITY
}

} // verus!
