use vstd::prelude::*;

use crate::geometry::vec::RawVec2;
use crate::ops::{ClampToI32, clamp_spec};
use super::linear_acceleration::LinearAcceleration;

verus! {

/// Smallest raw velocity component, `-1_024 m/s` in Q10.
pub const MIN_LINEAR_VELOCITY: i32 = -0x10_0000;
/// Largest raw velocity component, `1_024 m/s` in Q10.
pub const MAX_LINEAR_VELOCITY: i32 = 0x10_0000;

/// `value` saturated to the linear-velocity component range.
pub open spec fn clamp_velocity(value: int) -> int {
    clamp_spec(value, MIN_LINEAR_VELOCITY as int, MAX_LINEAR_VELOCITY as int)
}

/// Linear velocity in metres per second, stored as signed Q10 components.
///
/// The raw range per component is `-2^20..=2^20`; larger values saturate.
#[derive(Debug, Clone, Copy, PartialEq, Eq, Hash, Default, Structural)]
pub struct LinearVelocity {
    pub(crate) x: i32,
    pub(crate) y: i32,
}

impl View for LinearVelocity {
    type V = (i32, i32);

    closed spec fn view(&self) -> (i32, i32) {
        (self.x, self.y)
    }
}

#[inline(always)]
fn clamp_raw(value: i32) -> (r: i32)
    ensures
        r as int == clamp_velocity(value as int),
{
    if value < MIN_LINEAR_VELOCITY {
        MIN_LINEAR_VELOCITY
    } else if value > MAX_LINEAR_VELOCITY {
        MAX_LINEAR_VELOCITY
    } else {
        value
    }
}

impl LinearVelocity {
    pub const FRACTION_BITS: u32 = 10;
    pub const MIN_RAW: i32 = MIN_LINEAR_VELOCITY;
    pub const MAX_RAW: i32 = MAX_LINEAR_VELOCITY;
    /// The zero value.
    pub closed spec fn spec_zero() -> Self {
        Self { x: 0, y: 0 }
    }

    pub proof fn lemma_spec_zero()
        ensures
            Self::spec_zero()@ == (0i32, 0i32),
    {
    }

    pub fn zero() -> (r: Self)
        ensures
            r@ == (0i32, 0i32),
            r == Self::spec_zero(),
    {
        Self { x: 0, y: 0 }
    }


    #[verifier::type_invariant]
    closed spec fn in_range(self) -> bool {
        &&& MIN_LINEAR_VELOCITY <= self.x <= MAX_LINEAR_VELOCITY
        &&& MIN_LINEAR_VELOCITY <= self.y <= MAX_LINEAR_VELOCITY
    }

    /// Creates a Q10 velocity, saturating each raw component to the
    /// supported symmetric range.
    #[inline(always)]
    pub fn from_raw(x: i32, y: i32) -> (v: Self)
        ensures
            v@.0 as int == clamp_velocity(x as int),
            v@.1 as int == clamp_velocity(y as int),
    {
        Self { x: clamp_raw(x), y: clamp_raw(y) }
    }

    /// Creates a velocity when both components are already in range.
    #[inline(always)]
    pub fn checked_from_raw(x: i32, y: i32) -> (v: Option<Self>)
        ensures
            v is Some <==> (MIN_LINEAR_VELOCITY <= x <= MAX_LINEAR_VELOCITY
                && MIN_LINEAR_VELOCITY <= y <= MAX_LINEAR_VELOCITY),
            v matches Some(v) ==> v@ == (x, y),
    {
        let is_x = x >= MIN_LINEAR_VELOCITY && x <= MAX_LINEAR_VELOCITY;
        let is_y = y >= MIN_LINEAR_VELOCITY && y <= MAX_LINEAR_VELOCITY;
        if is_x && is_y {
            Some(Self { x, y })
        } else {
            None
        }
    }

    /// Saturates a wide pair to the velocity range.
    #[inline(always)]
    pub fn from_wide_saturated(x: i64, y: i64) -> (v: Self)
        ensures
            v@.0 as int == clamp_velocity(x as int),
            v@.1 as int == clamp_velocity(y as int),
    {
        Self {
            x: x.clamp_to_i32(MIN_LINEAR_VELOCITY, MAX_LINEAR_VELOCITY),
            y: y.clamp_to_i32(MIN_LINEAR_VELOCITY, MAX_LINEAR_VELOCITY),
        }
    }

    #[inline(always)]
    pub fn raw(self) -> (r: [i32; 2])
        ensures
            r[0] == self@.0,
            r[1] == self@.1,
            MIN_LINEAR_VELOCITY <= r[0] <= MAX_LINEAR_VELOCITY,
            MIN_LINEAR_VELOCITY <= r[1] <= MAX_LINEAR_VELOCITY,
    {
        proof {
            use_type_invariant(&self);
        }
        [self.x, self.y]
    }

    #[inline(always)]
    pub fn is_zero(self) -> (z: bool)
        ensures
            z == (self@.0 == 0 && self@.1 == 0),
    {
        self.x == 0 && self.y == 0
    }

    /// Squared raw Q10 magnitude, with 20 fractional bits.
    #[inline(always)]
    pub fn raw_sqr_magnitude(self) -> (m: u64)
        ensures
            m as int == self@.0 as int * self@.0 as int + self@.1 as int * self@.1 as int,
    {
        let r = self.raw();
        let x = r[0] as i64;
        let y = r[1] as i64;
        proof {
            assert(0 <= x * x <= 0x100_0000_0000) by (nonlinear_arith)
                requires -0x10_0000 <= x <= 0x10_0000;
            assert(0 <= y * y <= 0x100_0000_0000) by (nonlinear_arith)
                requires -0x10_0000 <= y <= 0x10_0000;
        }
        (x * x) as u64 + (y * y) as u64
    }

    /// Applies an acceleration for one 64 Hz tick: at that rate one Q4
    /// acceleration unit is exactly one Q10 velocity unit. Each component
    /// saturates at the velocity range.
    #[inline(always)]
    pub fn advance(self, acceleration: LinearAcceleration) -> (v: Self)
        ensures
            v == self.spec_advance(acceleration),
            v@.0 as int == clamp_velocity(self@.0 as int + acceleration@.0 as int),
            v@.1 as int == clamp_velocity(self@.1 as int + acceleration@.1 as int),
    {
        let r = self.raw();
        let a = acceleration.raw();
        Self::from_raw(r[0] + a[0], r[1] + a[1])
    }

    /// Returns the exact raw Q10 velocity difference `self - rhs`.
    #[inline(always)]
    pub fn diff(self, rhs: Self) -> (d: RawVec2)
        ensures
            d@.0 as int == self@.0 as int - rhs@.0 as int,
            d@.1 as int == self@.1 as int - rhs@.1 as int,
    {
        let a = self.raw();
        let b = rhs.raw();
        RawVec2::from_i32(a[0] - b[0], a[1] - b[1])
    }

    /// The velocity after one tick of `acceleration`.
    pub closed spec fn spec_advance(self, acceleration: LinearAcceleration) -> Self {
        Self {
            x: clamp_velocity(self.x + acceleration@.0) as i32,
            y: clamp_velocity(self.y + acceleration@.1) as i32,
        }
    }

    /// Components of the velocity after one tick of `acceleration`.
    pub proof fn lemma_spec_advance(velocity: Self, acceleration: LinearAcceleration)
        ensures
            velocity.spec_advance(acceleration)@.0 as int == clamp_velocity(velocity@.0 as int + acceleration@.0 as int),
            velocity.spec_advance(acceleration)@.1 as int == clamp_velocity(velocity@.1 as int + acceleration@.1 as int),
    {
    }

    pub closed spec fn spec_diff(self, rhs: Self) -> RawVec2 {
        RawVec2::spec_new(self@.0 - rhs@.0, self@.1 - rhs@.1)
    }
}

impl core::ops::Sub for LinearVelocity {
    type Output = RawVec2;

    /// Returns the exact raw Q10 velocity difference `self - rhs`.
    #[inline(always)]
    fn sub(self, rhs: Self) -> (d: RawVec2) {
        let d = self.diff(rhs);
        proof {
            RawVec2::lemma_spec_new(self@.0 - rhs@.0, self@.1 - rhs@.1);
            RawVec2::lemma_view_eq(d, self.spec_diff(rhs));
        }
        d
    }
}

impl vstd::std_specs::ops::SubSpecImpl for LinearVelocity {
    open spec fn obeys_sub_spec() -> bool {
        true
    }

    open spec fn sub_req(self, rhs: Self) -> bool {
        true
    }

    open spec fn sub_spec(self, rhs: Self) -> RawVec2 {
        self.spec_diff(rhs)
    }
}

} // verus!
