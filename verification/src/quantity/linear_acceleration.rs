use vstd::prelude::*;

use crate::ops::clamp_spec;

verus! {

/// Smallest raw acceleration component, `-65_536 m/s²` in Q4.
pub const MIN_LINEAR_ACCELERATION: i32 = -0x10_0000;
/// Largest raw acceleration component, `65_536 m/s²` in Q4.
pub const MAX_LINEAR_ACCELERATION: i32 = 0x10_0000;

/// Linear acceleration in metres per second squared, stored as signed Q4
/// components.
///
/// At 64 Hz one Q4 unit changes a Q10 velocity by exactly one unit per tick.
/// Each raw component is limited to `-(2^20)..=2^20`; larger values saturate.
#[derive(Debug, Clone, Copy, PartialEq, Eq, Hash, Default, Structural)]
pub struct LinearAcceleration {
    pub(crate) x: i32,
    pub(crate) y: i32,
}

impl View for LinearAcceleration {
    type V = (i32, i32);

    closed spec fn view(&self) -> (i32, i32) {
        (self.x, self.y)
    }
}

impl LinearAcceleration {
    pub const FRACTION_BITS: u32 = 4;
    pub fn zero() -> (r: Self)
        ensures
            r@ == (0i32, 0i32),
    {
        Self { x: 0, y: 0 }
    }


    #[verifier::type_invariant]
    closed spec fn in_range(self) -> bool {
        &&& MIN_LINEAR_ACCELERATION <= self.x <= MAX_LINEAR_ACCELERATION
        &&& MIN_LINEAR_ACCELERATION <= self.y <= MAX_LINEAR_ACCELERATION
    }

    /// Creates an acceleration from raw Q4 components, saturating each to the
    /// supported symmetric range.
    #[inline(always)]
    pub fn from_raw(x: i32, y: i32) -> (a: Self)
        ensures
            a@.0 as int == clamp_spec(x as int, MIN_LINEAR_ACCELERATION as int, MAX_LINEAR_ACCELERATION as int),
            a@.1 as int == clamp_spec(y as int, MIN_LINEAR_ACCELERATION as int, MAX_LINEAR_ACCELERATION as int),
    {
        Self { x: clamp_component(x), y: clamp_component(y) }
    }

    #[inline(always)]
    pub fn raw(self) -> (r: [i32; 2])
        ensures
            r[0] == self@.0,
            r[1] == self@.1,
            MIN_LINEAR_ACCELERATION <= r[0] <= MAX_LINEAR_ACCELERATION,
            MIN_LINEAR_ACCELERATION <= r[1] <= MAX_LINEAR_ACCELERATION,
    {
        proof {
            use_type_invariant(&self);
        }
        [self.x, self.y]
    }

    #[inline(always)]
    pub fn is_zero(self) -> (z: bool)
        ensures
            z == (self@.0 == 0 && self@.1 == 0),
    {
        self.x == 0 && self.y == 0
    }
}

#[inline(always)]
fn clamp_component(value: i32) -> (r: i32)
    ensures
        r as int == clamp_spec(value as int, MIN_LINEAR_ACCELERATION as int, MAX_LINEAR_ACCELERATION as int),
{
    if value < MIN_LINEAR_ACCELERATION {
        MIN_LINEAR_ACCELERATION
    } else if value > MAX_LINEAR_ACCELERATION {
        MAX_LINEAR_ACCELERATION
    } else {
        value
    }
}

} // verus!
