use vstd::prelude::*;

use crate::ops::{ClampToI32, RoundShift, clamp_spec, round_shift_spec};
use super::angle::AngleDelta;
use super::angular_acceleration::AngularAcceleration;
use super::ANGULAR_ACCELERATION_TO_VELOCITY_SHIFT;

verus! {

/// `2/π` in signed Q31: at 64 Hz one Q16 radian-per-second unit advances the
/// binary angle by `2^9 / π` raw units per tick.
pub const RAD_PER_SECOND_TO_ANGLE_DELTA_Q31: i64 = 1_367_130_551;

/// Smallest stored angular velocity, `-128 rad/s`.
pub const MIN_ANGULAR_VELOCITY: i32 = -0x80_0000;
/// Largest stored angular velocity, just below `128 rad/s`.
pub const MAX_ANGULAR_VELOCITY: i32 = 0x7f_ffff;

/// Angular velocity in radians per second, stored as bounded signed Q16.
///
/// The raw range is `-2^23..=2^23 - 1`; values outside it saturate.
#[derive(Debug, Clone, Copy, PartialEq, Eq, Hash, Default, Structural)]
pub struct AngularVelocity(pub(crate) i32);

impl View for AngularVelocity {
    type V = i32;

    closed spec fn view(&self) -> i32 {
        self.0
    }
}

impl AngularVelocity {
    pub const FRACTION_BITS: u32 = 16;
    /// The zero value.
    pub closed spec fn spec_zero() -> Self {
        Self(0)
    }

    pub proof fn lemma_spec_zero()
        ensures
            Self::spec_zero()@ == 0,
    {
    }

    pub fn zero() -> (r: Self)
        ensures
            r@ == 0,
            r == Self::spec_zero(),
    {
        Self(0)
    }


    #[verifier::type_invariant]
    closed spec fn in_range(self) -> bool {
        MIN_ANGULAR_VELOCITY <= self.0 <= MAX_ANGULAR_VELOCITY
    }

    /// Creates a velocity from raw Q16, saturating to the stored range.
    #[inline(always)]
    pub fn from_raw(raw: i32) -> (v: Self)
        ensures
            v@ as int == clamp_spec(raw as int, MIN_ANGULAR_VELOCITY as int, MAX_ANGULAR_VELOCITY as int),
    {
        let clamped = if raw < MIN_ANGULAR_VELOCITY {
            MIN_ANGULAR_VELOCITY
        } else if raw > MAX_ANGULAR_VELOCITY {
            MAX_ANGULAR_VELOCITY
        } else {
            raw
        };
        Self(clamped)
    }

    /// Saturates a wide raw value to the stored range.
    #[inline(always)]
    pub fn from_wide_saturated(raw: i64) -> (v: Self)
        ensures
            v@ as int == clamp_spec(raw as int, MIN_ANGULAR_VELOCITY as int, MAX_ANGULAR_VELOCITY as int),
    {
        Self(raw.clamp_to_i32(MIN_ANGULAR_VELOCITY, MAX_ANGULAR_VELOCITY))
    }

    #[inline(always)]
    pub fn raw(self) -> (r: i32)
        ensures
            r == self@,
            MIN_ANGULAR_VELOCITY <= r <= MAX_ANGULAR_VELOCITY,
    {
        proof {
            use_type_invariant(&self);
        }
        self.0
    }

    #[inline(always)]
    pub fn is_zero(self) -> (z: bool)
        ensures
            z == (self@ == 0),
    {
        self.0 == 0
    }

    /// Magnitude of the raw value.
    #[inline(always)]
    pub fn raw_magnitude(self) -> (m: u32)
        ensures
            m as int == if self@ < 0 { -(self@ as int) } else { self@ as int },
    {
        let raw = self.raw();
        if raw < 0 {
            (-raw) as u32
        } else {
            raw as u32
        }
    }

    /// The change of angular velocity produced by one tick of acceleration.
    pub open spec fn spec_velocity_change(acceleration: AngularAcceleration) -> int {
        round_shift_spec(acceleration@ as int, ANGULAR_ACCELERATION_TO_VELOCITY_SHIFT as nat)
    }

    /// Applies an angular acceleration for one 64 Hz tick, saturating at the
    /// stored angular-velocity range.
    #[inline]
    pub fn advance(self, acceleration: AngularAcceleration) -> (v: Self)
        ensures
            v == self.spec_advance(acceleration),
            v@ as int == clamp_spec(
                self@ as int + Self::spec_velocity_change(acceleration),
                MIN_ANGULAR_VELOCITY as int,
                MAX_ANGULAR_VELOCITY as int,
            ),
    {
        let raw = self.raw();
        let delta = (acceleration.raw() as i64).round_shift(ANGULAR_ACCELERATION_TO_VELOCITY_SHIFT);
        proof {
            crate::ops::lemma_round_shift_bound(acceleration@ as int, 14, 0x8000_0000);
            vstd::arithmetic::power2::lemma2_to64();
        }
        Self::from_wide_saturated(raw as i64 + delta)
    }

    /// The angular velocity after one tick of `acceleration`.
    pub closed spec fn spec_advance(self, acceleration: AngularAcceleration) -> Self {
        Self(clamp_spec(
            self.0 + Self::spec_velocity_change(acceleration),
            MIN_ANGULAR_VELOCITY as int,
            MAX_ANGULAR_VELOCITY as int,
        ) as i32)
    }

    /// The angular velocity after one tick of `acceleration`, as a number.
    pub proof fn lemma_spec_advance(velocity: Self, acceleration: AngularAcceleration)
        ensures
            velocity.spec_advance(acceleration)@ as int == clamp_spec(
                velocity@ as int + Self::spec_velocity_change(acceleration),
                MIN_ANGULAR_VELOCITY as int,
                MAX_ANGULAR_VELOCITY as int,
            ),
    {
    }

    /// Binary-angle advance for one tick at this velocity.
    pub open spec fn spec_angle_delta_per_tick(self) -> int {
        round_shift_spec(self@ as int * RAD_PER_SECOND_TO_ANGLE_DELTA_Q31 as int, 23)
    }

    /// Converts this velocity into a binary angle delta for one 64 Hz tick.
    #[inline]
    pub fn angle_delta_per_tick(self) -> (d: AngleDelta)
        ensures
            d@ as int == self.spec_angle_delta_per_tick(),
    {
        let raw = self.raw();
        let product = raw as i64 * RAD_PER_SECOND_TO_ANGLE_DELTA_Q31;
        proof {
            assert(-0x80_0000 * 1_367_130_551 <= product <= 0x7f_ffff * 1_367_130_551) by (nonlinear_arith)
                requires
                    -0x80_0000 <= raw <= 0x7f_ffff,
                    product == raw * 1_367_130_551,
            ;
            crate::ops::lemma_round_shift_bound(product as int, 23, 0x80_0000int * 1_367_130_551int);
            vstd::arithmetic::power2::lemma2_to64();
        }
        let delta = product.round_shift(23);
        AngleDelta::from_raw(delta as i32)
    }

    /// Q10 linear speed `omega * (r x n)` of a point whose lever crossed with
    /// a direction is `lever_cross_direction_q16` (Q16); the product is
    /// rounded half away from zero and must fit in `i32`.
    pub fn projected_point_speed_raw(self, lever_cross_direction_q16: i32) -> (s: i32)
        requires
            i32::MIN <= round_shift_spec(self@ as int * lever_cross_direction_q16 as int, 22) <= i32::MAX,
        ensures
            s as int == round_shift_spec(self@ as int * lever_cross_direction_q16 as int, 22),
    {
        let raw = self.raw();
        proof {
            assert(-0x80_0000 * 0x8000_0000 <= raw as int * lever_cross_direction_q16 as int <= 0x80_0000 * 0x8000_0000)
                by (nonlinear_arith)
                requires
                    -0x80_0000 <= raw <= 0x7f_ffff,
                    -0x8000_0000 <= lever_cross_direction_q16 <= 0x7fff_ffff,
            ;
        }
        let product = raw as i64 * lever_cross_direction_q16 as i64;
        let result = product.round_shift(22);
        result as i32
    }
}

} // verus!
