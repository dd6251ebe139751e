use vstd::prelude::*;

use super::angular_velocity::AngularVelocity;
use super::cordic::{sin_cos_q30, sin_cos_spec, unit_q60};

verus! {

/// `value` reduced to the signed range `-2^31..2^31` modulo one full turn.
pub open spec fn wrap_i32(value: int) -> int {
    (value + 0x8000_0000) % 0x1_0000_0000 - 0x8000_0000
}

/// `value` reduced to the unsigned range `0..2^32` modulo one full turn.
pub open spec fn wrap_u32(value: int) -> int {
    value % 0x1_0000_0000
}

/// Orientation stored as an unsigned binary angle.
///
/// One full turn is exactly `2^32` raw units, so `u32` wrapping is also angle
/// normalization: `0x4000_0000` is a quarter turn, `0x8000_0000` a half turn.
#[derive(Debug, Clone, Copy, PartialEq, Eq, Hash, Default, Structural)]
pub struct Angle(pub(crate) u32);

impl View for Angle {
    type V = u32;

    closed spec fn view(&self) -> u32 {
        self.0
    }
}

/// Signed binary angle difference covering `[-π, π)`.
#[derive(Debug, Clone, Copy, PartialEq, Eq, Hash, Default, Structural)]
pub struct AngleDelta(pub(crate) i32);

impl View for AngleDelta {
    type V = i32;

    closed spec fn view(&self) -> i32 {
        self.0
    }
}

proof fn lemma_i32_as_u32(value: i32)
    ensures
        (value as u32) as int == if value < 0 { value as int + 0x1_0000_0000 } else { value as int },
{
    assert((value as u32) as int == if value < 0 { value as int + 0x1_0000_0000 } else { value as int }) by (bit_vector);
}

proof fn lemma_u32_as_i32(value: u32)
    ensures
        (value as i32) as int == if value >= 0x8000_0000 { value as int - 0x1_0000_0000 } else { value as int },
{
    assert((value as i32) as int == if value >= 0x8000_0000 { value as int - 0x1_0000_0000 } else { value as int }) by (bit_vector);
}

impl Angle {
    pub fn zero() -> (r: Self)
        ensures
            r@ == 0,
    {
        Self(0)
    }

    pub fn quarter_turn() -> (r: Self)
        ensures
            r@ == 0x4000_0000,
    {
        Self(0x4000_0000)
    }

    pub fn half_turn() -> (r: Self)
        ensures
            r@ == 0x8000_0000,
    {
        Self(0x8000_0000)
    }

    pub fn three_quarter_turn() -> (r: Self)
        ensures
            r@ == 0xc000_0000,
    {
        Self(0xc000_0000)
    }


    #[inline(always)]
    pub fn from_raw(raw: u32) -> (a: Self)
        ensures
            a@ == raw,
    {
        Self(raw)
    }

    #[inline(always)]
    pub fn raw(self) -> (r: u32)
        ensures
            r == self@,
    {
        self.0
    }

    /// Returns `[sin, cos]` as signed Q30 values: exact at cardinal angles,
    /// deterministic integer CORDIC elsewhere, and never longer than one.
    #[inline]
    pub fn sin_cos_q30(self) -> (r: [i32; 2])
        ensures
            (r[0] as int, r[1] as int) == sin_cos_spec(self@),
            r[0] * r[0] + r[1] * r[1] <= unit_q60(),
            -0x4000_0000 <= r[0] <= 0x4000_0000,
            -0x4000_0000 <= r[1] <= 0x4000_0000,
    {
        sin_cos_q30(self.0)
    }

    /// Returns `(sin, cos)` as signed Q30 values.
    #[inline]
    pub fn sin_cos(self) -> (r: (i32, i32))
        ensures
            (r.0 as int, r.1 as int) == sin_cos_spec(self@),
            r.0 * r.0 + r.1 * r.1 <= unit_q60(),
            -0x4000_0000 <= r.0 <= 0x4000_0000,
            -0x4000_0000 <= r.1 <= 0x4000_0000,
    {
        let pair = sin_cos_q30(self.0);
        (pair[0], pair[1])
    }

    /// Adds a signed angle delta. Overflow performs the required full-turn wrap.
    #[inline(always)]
    pub fn wrapping_add(self, delta: AngleDelta) -> (a: Self)
        ensures
            a@ as int == wrap_u32(self@ as int + delta@ as int),
    {
        proof {
            lemma_i32_as_u32(delta.0);
        }
        Self(self.0.wrapping_add(delta.0 as u32))
    }

    /// Adds another angle, wrapping at one full turn.
    #[inline(always)]
    pub fn wrapping_add_angle(self, other: Self) -> (a: Self)
        ensures
            a@ as int == wrap_u32(self@ as int + other@ as int),
    {
        Self(self.0.wrapping_add(other.0))
    }

    /// Returns the shortest signed delta from `self` to `target`.
    #[inline(always)]
    pub fn delta_to(self, target: Self) -> (d: AngleDelta)
        ensures
            d@ as int == wrap_i32(target@ as int - self@ as int),
    {
        let difference = target.0.wrapping_sub(self.0);
        proof {
            lemma_u32_as_i32(difference);
        }
        AngleDelta(difference as i32)
    }

    /// The angle after one tick at `velocity`.
    pub closed spec fn spec_advance(self, velocity: AngularVelocity) -> Self {
        Self(wrap_u32(self.0 + velocity.spec_angle_delta_per_tick()) as u32)
    }

    /// The angle after one tick at `velocity`, as a number.
    pub proof fn lemma_spec_advance(angle: Self, velocity: AngularVelocity)
        ensures
            angle.spec_advance(velocity)@ as int == wrap_u32(angle@ as int + velocity.spec_angle_delta_per_tick()),
    {
    }

    /// Advances the angle by one 64 Hz tick.
    #[inline(always)]
    pub fn advance(self, velocity: AngularVelocity) -> (a: Self)
        ensures
            a == self.spec_advance(velocity),
            a@ as int == wrap_u32(self@ as int + velocity.spec_angle_delta_per_tick()),
    {
        self.wrapping_add(velocity.angle_delta_per_tick())
    }
}

/// Adding the shortest delta from `a` to `b` onto `a` lands exactly on `b`.
pub proof fn lemma_delta_to_round_trip(a: Angle, b: Angle)
    ensures
        wrap_u32(a@ as int + wrap_i32(b@ as int - a@ as int)) == b@ as int,
{
    let d = b@ as int - a@ as int;
    let w = wrap_i32(d);
    assert((d + 0x8000_0000) % 0x1_0000_0000 == if d + 0x8000_0000 >= 0x1_0000_0000 {
        d + 0x8000_0000 - 0x1_0000_0000
    } else if d + 0x8000_0000 >= 0 {
        d + 0x8000_0000
    } else {
        d + 0x8000_0000 + 0x1_0000_0000
    });
}

impl AngleDelta {
    pub fn zero() -> (r: Self)
        ensures
            r@ == 0,
    {
        Self(0)
    }


    #[inline(always)]
    pub fn from_raw(raw: i32) -> (d: Self)
        ensures
            d@ == raw,
    {
        Self(raw)
    }

    #[inline(always)]
    pub fn raw(self) -> (r: i32)
        ensures
            r == self@,
    {
        self.0
    }
}

} // verus!
