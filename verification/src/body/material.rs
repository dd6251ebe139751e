use vstd::prelude::*;

verus! {

/// One in unsigned Q16.
pub const COEFFICIENT_SCALE: u32 = 0x1_0000;

/// Friction of the predefined materials, one half in Q16.
pub const DEFAULT_FRICTION_Q16: u32 = 0x8000;

/// `⌈(a + b) / 2⌉`.
pub open spec fn ceil_mean(a: int, b: int) -> int {
    (a + b + 1) / 2
}

/// Collision material with Q16 restitution in `0..=1` and a non-negative Q16
/// Coulomb friction coefficient (values above one are allowed).
#[derive(Debug, Clone, Copy, PartialEq, Eq, Hash, Structural)]
pub struct Material {
    pub(crate) restitution_q16: u32,
    pub(crate) friction_q16: u32,
}

impl View for Material {
    /// `(restitution, friction)` in Q16.
    type V = (u32, u32);

    closed spec fn view(&self) -> (u32, u32) {
        (self.restitution_q16, self.friction_q16)
    }
}

impl Material {
    #[verifier::type_invariant]
    closed spec fn restitution_in_unit_interval(self) -> bool {
        self.restitution_q16 <= COEFFICIENT_SCALE
    }

    /// No bounce, default friction.
    pub fn inelastic() -> (m: Self)
        ensures
            m@ == (0u32, DEFAULT_FRICTION_Q16),
    {
        Self { restitution_q16: 0, friction_q16: DEFAULT_FRICTION_Q16 }
    }

    /// Full bounce, default friction.
    pub fn elastic() -> (m: Self)
        ensures
            m@ == (COEFFICIENT_SCALE, DEFAULT_FRICTION_Q16),
    {
        Self { restitution_q16: COEFFICIENT_SCALE, friction_q16: DEFAULT_FRICTION_Q16 }
    }

    /// Creates a material from Q16 coefficients; `None` when restitution is
    /// above one.
    #[inline]
    pub fn from_raw(restitution_q16: u32, friction_q16: u32) -> (m: Option<Self>)
        ensures
            m is Some <==> restitution_q16 <= COEFFICIENT_SCALE,
            m matches Some(m) ==> m@ == (restitution_q16, friction_q16),
    {
        if restitution_q16 > COEFFICIENT_SCALE {
            None
        } else {
            Some(Self { restitution_q16, friction_q16 })
        }
    }

    #[inline(always)]
    pub fn restitution_raw(self) -> (r: u32)
        ensures
            r == self@.0,
            r <= COEFFICIENT_SCALE,
    {
        proof {
            use_type_invariant(&self);
        }
        self.restitution_q16
    }

    #[inline(always)]
    pub fn friction_raw(self) -> (r: u32)
        ensures
            r == self@.1,
    {
        self.friction_q16
    }

    /// Restitution of a contact between two materials: the larger one.
    #[inline(always)]
    pub fn combined_restitution_raw(self, other: Self) -> (r: u32)
        ensures
            r == if self@.0 > other@.0 { self@.0 } else { other@.0 },
    {
        if self.restitution_q16 > other.restitution_q16 {
            self.restitution_q16
        } else {
            other.restitution_q16
        }
    }

    /// Friction of a contact between two materials: the mean, rounded up.
    #[inline(always)]
    pub fn combined_friction_raw(self, other: Self) -> (r: u32)
        ensures
            r as int == ceil_mean(self@.1 as int, other@.1 as int),
    {
        ((self.friction_q16 as u64 + other.friction_q16 as u64 + 1) / 2) as u32
    }
}

/// Combining two materials does not depend on their order.
pub proof fn lemma_combination_symmetric(a: Material, b: Material)
    ensures
        (if a@.0 > b@.0 { a@.0 } else { b@.0 }) == (if b@.0 > a@.0 { b@.0 } else { a@.0 }),
        ceil_mean(a@.1 as int, b@.1 as int) == ceil_mean(b@.1 as int, a@.1 as int),
        ceil_mean(a@.1 as int, a@.1 as int) == a@.1,
{
}

impl Default for Material {
    fn default() -> (m: Self)
        ensures
            m@ == (0u32, DEFAULT_FRICTION_Q16),
    {
        Self::inelastic()
    }
}

} // verus!
