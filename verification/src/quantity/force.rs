use vstd::prelude::*;

verus! {

/// Non-negative force in newtons, stored as unsigned Q16.
///
/// At the fixed 64 Hz rate, conversion to the solver's Q10 impulse format is
/// an exact 12-bit scale change.
#[derive(Debug, Clone, Copy, PartialEq, Eq, PartialOrd, Ord, Hash, Default, Structural)]
pub struct Force(pub(crate) u32);

impl View for Force {
    type V = u32;

    closed spec fn view(&self) -> u32 {
        self.0
    }
}

impl Force {
    pub const FRACTION_BITS: u32 = 16;
    pub const SCALE: u64 = 0x1_0000;
    pub fn zero() -> (r: Self)
        ensures
            r@ == 0,
    {
        Self(0)
    }


    #[inline(always)]
    pub fn from_raw(raw: u32) -> (f: Self)
        ensures
            f@ == raw,
    {
        Self(raw)
    }

    #[inline(always)]
    pub fn raw(self) -> (r: u32)
        ensures
            r == self@,
    {
        self.0
    }

    /// Maximum impulse for one 64 Hz tick in Q10 kg·m/s: `max_force / 64`.
    #[inline(always)]
    pub fn impulse_per_tick_q10(self) -> (i: u64)
        ensures
            i as int == self@ as int / 0x1000,
    {
        proof {
            vstd::bits::lemma_u64_shr_is_div(self.0 as u64, 12);
            vstd::arithmetic::power2::lemma2_to64();
        }
        (self.0 as u64) >> 12
    }
}

} // verus!
