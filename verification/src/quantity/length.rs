use vstd::prelude::*;

verus! {

/// Largest length, `2^30 - 1` raw units: the sum of two maximum collider radii.
pub const MAX_LENGTH: u32 = 0x3fff_ffff;

/// Non-negative length in metres, stored as unsigned Q16.
///
/// The simulation range is `0 m..16_384 m` (exclusive upper bound).
#[derive(Debug, Clone, Copy, PartialEq, Eq, PartialOrd, Ord, Hash, Default, Structural)]
pub struct Length(pub(crate) u32);

impl View for Length {
    type V = u32;

    closed spec fn view(&self) -> u32 {
        self.0
    }
}

impl Length {
    /// Number of fractional bits in the raw Q16 representation.
    pub const FRACTION_BITS: u32 = 16;
    /// Raw units per metre.
    pub const SCALE: u64 = 0x1_0000;
    /// Zero length.
    pub fn zero() -> (r: Self)
        ensures
            r@ == 0,
    {
        Self(0)
    }

    /// Largest raw length.
    pub const MAX_LENGTH: u32 = MAX_LENGTH;

    #[verifier::type_invariant]
    closed spec fn in_range(self) -> bool {
        self.0 <= MAX_LENGTH
    }

    /// Creates a length from raw Q16 units; `None` above the simulation range.
    #[inline(always)]
    pub fn from_raw(raw: u32) -> (l: Option<Self>)
        ensures
            raw <= MAX_LENGTH <==> l is Some,
            l matches Some(l) ==> l@ == raw,
    {
        if raw <= MAX_LENGTH {
            Some(Self(raw))
        } else {
            None
        }
    }

    /// Creates a length from raw Q16 units, saturating at the simulation range.
    #[inline(always)]
    pub fn from_raw_saturating(raw: u32) -> (l: Self)
        ensures
            l@ == if raw <= MAX_LENGTH { raw } else { MAX_LENGTH },
    {
        if raw <= MAX_LENGTH {
            Self(raw)
        } else {
            Self(MAX_LENGTH)
        }
    }

    /// Returns the raw Q16 length.
    #[inline(always)]
    pub fn raw(self) -> (r: u32)
        ensures
            r == self@,
            r <= MAX_LENGTH,
    {
        proof {
            use_type_invariant(&self);
        }
        self.0
    }

    /// Square of the raw length, with 32 fractional bits.
    #[inline(always)]
    pub fn sqr_length(self) -> (s: u64)
        ensures
            s as int == self@ as int * self@ as int,
    {
        let l = self.raw() as u64;
        proof {
            vstd::arithmetic::mul::lemma_mul_upper_bound(l as int, 0x3fff_ffff, l as int, 0x3fff_ffff);
        }
        l * l
    }
}

} // verus!
