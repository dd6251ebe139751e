use vstd::prelude::*;

verus! {

/// `round(2^38 / mass)` saturated to `u32`: the reciprocal of a Q14 mass in Q24.
pub open spec fn inverse_mass_q24_spec(mass_raw: int) -> int {
    let inverse = (0x40_0000_0000 + mass_raw / 2) / mass_raw;
    if inverse > u32::MAX {
        u32::MAX as int
    } else {
        inverse
    }
}

/// Positive body mass in kilograms, stored as unsigned Q14.
///
/// Zero is rejected; the storage range is `0 kg..262_144 kg`.
#[derive(Debug, Clone, Copy, PartialEq, Eq, PartialOrd, Ord, Hash, Structural)]
pub struct Mass(pub(crate) u32);

impl View for Mass {
    type V = u32;

    closed spec fn view(&self) -> u32 {
        self.0
    }
}

impl Mass {
    pub const FRACTION_BITS: u32 = 14;
    pub const SCALE: u64 = 0x4000;
    pub fn one() -> (r: Self)
        ensures
            r@ == 0x4000,
    {
        Self(0x4000)
    }


    #[verifier::type_invariant]
    closed spec fn positive(self) -> bool {
        self.0 > 0
    }

    /// Creates a mass from raw Q14; `None` for zero.
    #[inline]
    pub fn from_raw(raw: u32) -> (m: Option<Self>)
        ensures
            raw != 0 <==> m is Some,
            m matches Some(m) ==> m@ == raw,
    {
        if raw == 0 {
            None
        } else {
            Some(Self(raw))
        }
    }

    #[inline(always)]
    pub fn raw(self) -> (r: u32)
        ensures
            r == self@,
            r > 0,
    {
        proof {
            use_type_invariant(&self);
        }
        self.0
    }

    /// Reciprocal mass as unsigned Q24, rounded to nearest and saturated.
    #[inline(always)]
    pub fn inverse_q24(self) -> (i: u32)
        ensures
            i as int == inverse_mass_q24_spec(self@ as int),
    {
        let raw = self.raw() as u64;
        let numerator: u64 = 0x40_0000_0000;
        proof {
            vstd::bits::lemma_u64_shr_is_div(raw, 1);
            vstd::arithmetic::power2::lemma2_to64();
        }
        let inverse = (numerator + (raw >> 1)) / raw;
        if inverse > u32::MAX as u64 {
            u32::MAX
        } else {
            inverse as u32
        }
    }
}

impl Default for Mass {
    fn default() -> (m: Self)
        ensures
            m@ == 0x4000,
    {
        Self::one()
    }
}

} // verus!
