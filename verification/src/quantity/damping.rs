use vstd::prelude::*;

use super::angular_velocity::AngularVelocity;
use super::linear_velocity::LinearVelocity;

verus! {

/// One in Q16.
pub const DAMPING_SCALE: u32 = 0x1_0000;

/// `value` scaled by `retention / 2^16`, truncated toward zero.
pub open spec fn damped(value: int, retention_q16: int) -> int {
    if value < 0 {
        -((-value * retention_q16) / 0x1_0000)
    } else {
        (value * retention_q16) / 0x1_0000
    }
}

/// Fraction of velocity lost during one fixed 64 Hz simulation tick.
///
/// The public coefficient is in `0..=1`: zero preserves all velocity and one
/// removes it completely. Internally the complementary retention multiplier
/// is stored in Q16, so applying damping is a multiply and a shift.
#[derive(Debug, Clone, Copy, PartialEq, Eq, Hash, Structural)]
pub struct Damping {
    pub(crate) retention_q16: u32,
}

impl View for Damping {
    type V = u32;

    /// The stored Q16 retention multiplier.
    closed spec fn view(&self) -> u32 {
        self.retention_q16
    }
}

impl Damping {
    pub const FRACTION_BITS: u32 = 16;

    /// No velocity loss.
    pub fn none() -> (r: Self)
        ensures
            r@ == 0x1_0000,
    {
        Self { retention_q16: 0x1_0000 }
    }


    /// Complete velocity loss in one tick.
    pub fn full() -> (r: Self)
        ensures
            r@ == 0,
    {
        Self { retention_q16: 0 }
    }


    #[verifier::type_invariant]
    closed spec fn retention_in_range(self) -> bool {
        self.retention_q16 <= DAMPING_SCALE
    }

    /// Creates damping from its Q16 loss coefficient; `None` above one.
    #[inline(always)]
    pub fn from_raw(coefficient_q16: u32) -> (d: Option<Self>)
        ensures
            coefficient_q16 <= DAMPING_SCALE <==> d is Some,
            d matches Some(d) ==> d@ == DAMPING_SCALE - coefficient_q16,
    {
        if coefficient_q16 <= DAMPING_SCALE {
            Some(Self { retention_q16: DAMPING_SCALE - coefficient_q16 })
        } else {
            None
        }
    }

    /// Returns the Q16 fraction of velocity lost per tick.
    #[inline(always)]
    pub fn raw(self) -> (r: u32)
        ensures
            r == DAMPING_SCALE - self@,
            r <= DAMPING_SCALE,
    {
        proof {
            use_type_invariant(&self);
        }
        DAMPING_SCALE - self.retention_q16
    }

    /// Returns the stored Q16 retention multiplier.
    #[inline(always)]
    pub fn retention_raw(self) -> (r: u32)
        ensures
            r == self@,
            r <= DAMPING_SCALE,
    {
        proof {
            use_type_invariant(&self);
        }
        self.retention_q16
    }

    /// Multiplies a signed value by the retention coefficient, working on the
    /// magnitude so the shift truncates toward zero for both signs.
    pub fn apply_raw(self, value: i32) -> (r: i32)
        ensures
            r as int == damped(value as int, self@ as int),
    {
        let retention = self.retention_raw();
        let magnitude_in: u64 = if value < 0 {
            (-(value as i64)) as u64
        } else {
            value as u64
        };
        proof {
            vstd::arithmetic::mul::lemma_mul_upper_bound(magnitude_in as int, 0x8000_0000, retention as int, 0x1_0000);
            vstd::arithmetic::mul::lemma_mul_nonnegative(magnitude_in as int, retention as int);
        }
        let product = magnitude_in * retention as u64;
        proof {
            vstd::bits::lemma_u64_shr_is_div(product, 16);
            vstd::arithmetic::power2::lemma2_to64();
            vstd::arithmetic::div_mod::lemma_div_is_ordered(product as int, 0x8000_0000int * 0x1_0000int, 0x1_0000int);
        }
        let magnitude = product >> 16;
        proof {
            assert(magnitude <= magnitude_in) by {
                vstd::arithmetic::mul::lemma_mul_upper_bound(magnitude_in as int, magnitude_in as int, retention as int, 0x1_0000);
                vstd::arithmetic::div_mod::lemma_div_is_ordered(product as int, magnitude_in * 0x1_0000, 0x1_0000);
                vstd::arithmetic::div_mod::lemma_div_by_multiple(magnitude_in as int, 0x1_0000);
            }
        }
        let signed = if value < 0 {
            -(magnitude as i64)
        } else {
            magnitude as i64
        };
        signed as i32
    }

    /// Damps both components of a linear velocity.
    pub fn apply_linear(self, velocity: LinearVelocity) -> (v: LinearVelocity)
        ensures
            v@.0 as int == damped(velocity@.0 as int, self@ as int),
            v@.1 as int == damped(velocity@.1 as int, self@ as int),
    {
        let raw = velocity.raw();
        let x = self.apply_raw(raw[0]);
        let y = self.apply_raw(raw[1]);
        proof {
            use_type_invariant(&self);
            lemma_damped_shrinks(raw[0] as int, self@ as int);
            lemma_damped_shrinks(raw[1] as int, self@ as int);
        }
        LinearVelocity::from_raw(x, y)
    }

    /// Damps an angular velocity.
    pub fn apply_angular(self, velocity: AngularVelocity) -> (v: AngularVelocity)
        ensures
            v@ as int == damped(velocity@ as int, self@ as int),
    {
        let raw = velocity.raw();
        let w = self.apply_raw(raw);
        proof {
            use_type_invariant(&self);
            lemma_damped_shrinks(raw as int, self@ as int);
        }
        AngularVelocity::from_raw(w)
    }
}

/// Damping never increases a magnitude and never changes a sign.
pub proof fn lemma_damped_shrinks(value: int, retention_q16: int)
    requires
        0 <= retention_q16 <= 0x1_0000,
    ensures
        value >= 0 ==> 0 <= damped(value, retention_q16) <= value,
        value < 0 ==> value <= damped(value, retention_q16) <= 0,
        damped(-value, retention_q16) == -damped(value, retention_q16),
{
    let m = if value < 0 { -value } else { value };
    vstd::arithmetic::mul::lemma_mul_upper_bound(m, m, retention_q16, 0x1_0000);
    vstd::arithmetic::mul::lemma_mul_nonnegative(m, retention_q16);
    vstd::arithmetic::div_mod::lemma_div_is_ordered(m * retention_q16, m * 0x1_0000, 0x1_0000);
    vstd::arithmetic::div_mod::lemma_div_by_multiple(m, 0x1_0000);
    vstd::arithmetic::div_mod::lemma_div_pos_is_pos(m * retention_q16, 0x1_0000);
    if value == 0 {
        assert(damped(-value, retention_q16) == 0);
    }
}

impl Default for Damping {
    fn default() -> (d: Self)
        ensures
            d@ == DAMPING_SCALE,
    {
        Self::none()
    }
}

} // verus!
