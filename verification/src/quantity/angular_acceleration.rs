use vstd::prelude::*;

verus! {

/// Angular acceleration in radians per second squared, stored as signed Q24.
///
/// The raw range is the full `i32` range: `-128 rad/s²` inclusive to
/// `128 rad/s²` exclusive.
#[derive(Debug, Clone, Copy, PartialEq, Eq, Hash, Default, Structural)]
pub struct AngularAcceleration(pub(crate) i32);

impl View for AngularAcceleration {
    type V = i32;

    closed spec fn view(&self) -> i32 {
        self.0
    }
}

impl AngularAcceleration {
    pub const FRACTION_BITS: u32 = 24;
    pub const MIN_RAW: i32 = i32::MIN;
    pub const MAX_RAW: i32 = i32::MAX;
    pub fn zero() -> (r: Self)
        ensures
            r@ == 0,
    {
        Self(0)
    }


    #[inline(always)]
    pub fn from_raw(raw: i32) -> (a: Self)
        ensures
            a@ == raw,
    {
        Self(raw)
    }

    /// Every raw Q24 value is a valid angular acceleration.
    #[inline(always)]
    pub fn checked_from_raw(raw: i32) -> (a: Option<Self>)
        ensures
            a matches Some(v) && v@ == raw,
    {
        Some(Self(raw))
    }

    #[inline(always)]
    pub fn raw(self) -> (r: i32)
        ensures
            r == self@,
    {
        self.0
    }

    #[inline(always)]
    pub fn is_zero(self) -> (z: bool)
        ensures
            z == (self@ == 0),
    {
        self.0 == 0
    }
}

} // verus!
