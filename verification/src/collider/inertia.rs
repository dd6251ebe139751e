use vstd::prelude::*;

use crate::ops::{DivRoundShift, div_round_shift_spec};

verus! {

/// Converts a ratio between an inverse-mass Q24 numerator and a squared-length
/// Q32 denominator to inverse-inertia Q40; the scale change is `2^(40 + 32 - 24)`.
pub fn from_q24_per_q32_ratio(numerator: u128, denominator: u128) -> (r: u64)
    requires
        0 < denominator,
    ensures
        r == div_round_shift_spec(numerator as nat, denominator as nat, 48),
{
    numerator.div_round_shift_saturating(denominator, 48)
}

} // verus!
