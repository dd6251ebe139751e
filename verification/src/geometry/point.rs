use vstd::prelude::*;

use crate::geometry::unit_vector::UnitVector;
use crate::geometry::vec::RawVec2;
use crate::ops::{RoundShift, clamp_spec, round_shift_spec, trunc_div};

verus! {

/// Smallest derived geometry coordinate, `-(2^30 - 1)`.
pub const MIN_POINT: i32 = -0x3fff_ffff;
/// Largest derived geometry coordinate, `2^30 - 1`.
pub const MAX_POINT: i32 = 0x3fff_ffff;

/// The value is a derived geometry coordinate.
pub open spec fn point_in_range(value: int) -> bool {
    MIN_POINT <= value <= MAX_POINT
}

/// Derived world-space Q16 point bounded to `±(2^30 - 1)` per component.
///
/// Body origins use the more restrictive `Position`. Collider vertices,
/// contact points and bounding boxes may extend beyond that range while the
/// sum or difference of any two points still fits in `i32`.
#[derive(Debug, Clone, Copy, PartialEq, Eq, Hash, Default, Structural)]
pub struct GeometryPoint {
    pub(crate) x: i32,
    pub(crate) y: i32,
}

impl View for GeometryPoint {
    type V = (i32, i32);

    closed spec fn view(&self) -> (i32, i32) {
        (self.x, self.y)
    }
}

impl GeometryPoint {
    pub fn zero() -> (r: Self)
        ensures
            r@ == (0i32, 0i32),
    {
        Self { x: 0, y: 0 }
    }


    #[verifier::type_invariant]
    closed spec fn in_range(self) -> bool {
        point_in_range(self.x as int) && point_in_range(self.y as int)
    }

    /// Creates a point whose geometry range the caller has established.
    #[inline(always)]
    pub fn from_i32_unchecked(x: i32, y: i32) -> (p: Self)
        requires
            point_in_range(x as int),
            point_in_range(y as int),
        ensures
            p@ == (x, y),
    {
        Self { x, y }
    }

    /// Narrows a wide point whose geometry range the caller has established.
    #[inline(always)]
    pub fn from_i64_unchecked(x: i64, y: i64) -> (p: Self)
        requires
            point_in_range(x as int),
            point_in_range(y as int),
        ensures
            p@.0 as int == x as int,
            p@.1 as int == y as int,
    {
        Self { x: x as i32, y: y as i32 }
    }

    #[inline(always)]
    pub fn raw(self) -> (r: [i32; 2])
        ensures
            r[0] == self@.0,
            r[1] == self@.1,
            point_in_range(r[0] as int),
            point_in_range(r[1] as int),
    {
        proof {
            use_type_invariant(&self);
        }
        [self.x, self.y]
    }

    /// Component-wise midpoint, rounded toward zero.
    #[inline(always)]
    pub fn midpoint(self, other: Self) -> (m: Self)
        ensures
            m@.0 as int == trunc_div(self@.0 as int + other@.0 as int, 2),
            m@.1 as int == trunc_div(self@.1 as int + other@.1 as int, 2),
    {
        let own = self.raw();
        let ax: i32 = own[0];
        let ay: i32 = own[1];
        let other_raw = other.raw();
        let bx: i32 = other_raw[0];
        let by: i32 = other_raw[1];
        Self { x: (ax + bx) / 2, y: (ay + by) / 2 }
    }

    /// Exact difference `self - rhs`.
    #[inline(always)]
    pub fn diff(self, rhs: Self) -> (d: RawVec2)
        ensures
            d@.0 as int == self@.0 as int - rhs@.0 as int,
            d@.1 as int == self@.1 as int - rhs@.1 as int,
    {
        let a = self.raw();
        let b = rhs.raw();
        RawVec2::from_i32(a[0] - b[0], a[1] - b[1])
    }

    /// The point as a vector from the origin.
    #[inline(always)]
    pub fn to_vec(self) -> (v: RawVec2)
        ensures
            v@ == self@,
            point_in_range(self@.0 as int),
            point_in_range(self@.1 as int),
    {
        let a = self.raw();
        RawVec2::from_i32(a[0], a[1])
    }

    /// Squared raw distance, with 32 fractional bits.
    #[inline(always)]
    pub fn squared_distance(self, other: Self) -> (d: u64)
        ensures
            d as int == (self@.0 - other@.0) * (self@.0 - other@.0) + (self@.1 - other@.1) * (self@.1 - other@.1),
    {
        self.diff(other).squared_magnitude()
    }

    /// Moves the point `distance` raw units along `axis`, rounding the
    /// Q30 products half away from zero. The result must stay a geometry point.
    #[inline(always)]
    pub fn offset(self, axis: UnitVector, distance: i32) -> (p: Self)
        requires
            point_in_range(self@.0 + round_shift_spec(axis@.0 * distance, 30)),
            point_in_range(self@.1 + round_shift_spec(axis@.1 * distance, 30)),
        ensures
            p@.0 as int == self@.0 + round_shift_spec(axis@.0 * distance, 30),
            p@.1 as int == self@.1 + round_shift_spec(axis@.1 * distance, 30),
    {
        let own = self.raw();
        let x: i32 = own[0];
        let y: i32 = own[1];
        let axis_raw = axis.raw();
        let nx: i32 = axis_raw[0];
        let ny: i32 = axis_raw[1];
        proof {
            crate::geometry::unit_vector::lemma_component_product(nx as int, distance as int);
            crate::geometry::unit_vector::lemma_component_product(ny as int, distance as int);
        }
        let ox = (nx as i64 * distance as i64).round_shift(30);
        let oy = (ny as i64 * distance as i64).round_shift(30);
        Self::from_i64_unchecked(x as i64 + ox, y as i64 + oy)
    }

    /// Moves the point `distance` raw units along `axis` like [`Self::offset`],
    /// saturating each component at the geometry range.
    #[inline(always)]
    pub fn offset_clamped(self, axis: UnitVector, distance: i64) -> (p: Self)
        requires
            -0x8000_0000 <= distance <= 0x7fff_ffff,
        ensures
            p@.0 as int == clamp_spec(self@.0 + round_shift_spec(axis@.0 * distance, 30), MIN_POINT as int, MAX_POINT as int),
            p@.1 as int == clamp_spec(self@.1 + round_shift_spec(axis@.1 * distance, 30), MIN_POINT as int, MAX_POINT as int),
    {
        let raw = self.raw();
        let x: i32 = raw[0];
        let y: i32 = raw[1];
        let direction = axis.raw();
        let nx: i32 = direction[0];
        let ny: i32 = direction[1];
        proof {
            crate::geometry::unit_vector::lemma_component_product(nx as int, distance as int);
            crate::geometry::unit_vector::lemma_component_product(ny as int, distance as int);
            crate::ops::lemma_round_shift_bound(nx as int * distance as int, 30, 0x4000_0000_0000_0000);
            crate::ops::lemma_round_shift_bound(ny as int * distance as int, 30, 0x4000_0000_0000_0000);
            vstd::arithmetic::power2::lemma2_to64();
        }
        let ox = (nx as i64 * distance).round_shift(30);
        let oy = (ny as i64 * distance).round_shift(30);
        Self::from_i64_clamped(x as i64 + ox, y as i64 + oy)
    }

    /// Creates a point, saturating each component at the geometry range.
    #[inline(always)]
    pub fn from_i64_clamped(x: i64, y: i64) -> (p: Self)
        ensures
            p@.0 as int == clamp_spec(x as int, MIN_POINT as int, MAX_POINT as int),
            p@.1 as int == clamp_spec(y as int, MIN_POINT as int, MAX_POINT as int),
    {
        let cx = if x < MIN_POINT as i64 { MIN_POINT } else if x > MAX_POINT as i64 { MAX_POINT } else { x as i32 };
        let cy = if y < MIN_POINT as i64 { MIN_POINT } else if y > MAX_POINT as i64 { MAX_POINT } else { y as i32 };
        Self { x: cx, y: cy }
    }

    pub closed spec fn spec_diff(self, rhs: Self) -> RawVec2 {
        RawVec2::spec_new(self@.0 - rhs@.0, self@.1 - rhs@.1)
    }
}

impl core::ops::Sub for GeometryPoint {
    type Output = RawVec2;

    #[inline(always)]
    fn sub(self, rhs: Self) -> (d: RawVec2) {
        let d = self.diff(rhs);
        proof {
            RawVec2::lemma_spec_new(self@.0 - rhs@.0, self@.1 - rhs@.1);
            RawVec2::lemma_view_eq(d, self.spec_diff(rhs));
        }
        d
    }
}

impl vstd::std_specs::ops::SubSpecImpl for GeometryPoint {
    open spec fn obeys_sub_spec() -> bool {
        true
    }

    open spec fn sub_req(self, rhs: Self) -> bool {
        true
    }

    open spec fn sub_spec(self, rhs: Self) -> RawVec2 {
        self.spec_diff(rhs)
    }
}

} // verus!
