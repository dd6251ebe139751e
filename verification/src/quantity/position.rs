use vstd::prelude::*;

use crate::geometry::point::{GeometryPoint, MAX_POINT, MIN_POINT, point_in_range};
use crate::geometry::vec::RawVec2;
use crate::ops::{RoundShift, clamp_spec, lemma_round_shift_bound, round_shift_spec, trunc_div};
use super::angle::Angle;
use super::cordic::{sin_cos_spec, unit_q60};
use super::linear_velocity::LinearVelocity;

verus! {

/// Smallest world coordinate, `-(2^29 - 1)` raw Q16 units.
pub const MIN_POSITION: i32 = -0x1fff_ffff;
/// Largest world coordinate, `2^29 - 1` raw Q16 units.
pub const MAX_POSITION: i32 = 0x1fff_ffff;

/// `value` saturated to the world coordinate range.
pub open spec fn clamp_position(value: int) -> int {
    clamp_spec(value, MIN_POSITION as int, MAX_POSITION as int)
}

/// The value is a world coordinate.
pub open spec fn position_in_range(value: int) -> bool {
    MIN_POSITION <= value <= MAX_POSITION
}

/// World-space position in metres, stored as signed Q16 components.
///
/// The raw range per component is `-(2^29 - 1)..=(2^29 - 1)`, so sums and
/// differences of positions fit in `i32`.
#[derive(Debug, Clone, Copy, PartialEq, Eq, Hash, Default, Structural)]
pub struct Position {
    pub(crate) x: i32,
    pub(crate) y: i32,
}

impl View for Position {
    type V = (i32, i32);

    closed spec fn view(&self) -> (i32, i32) {
        (self.x, self.y)
    }
}

impl Position {
    pub const FRACTION_BITS: u32 = 16;
    pub const SCALE: i64 = 0x1_0000;
    pub const MIN_POSITION: i32 = MIN_POSITION;
    pub const MAX_POSITION: i32 = MAX_POSITION;
    pub const MIN_RAW: i32 = MIN_POSITION;
    pub const MAX_RAW: i32 = MAX_POSITION;
    pub const MIN_POINT: i32 = MIN_POINT;
    pub const MAX_POINT: i32 = MAX_POINT;
    pub fn zero() -> (r: Self)
        ensures
            r@ == (0i32, 0i32),
    {
        Self { x: 0, y: 0 }
    }


    #[verifier::type_invariant]
    closed spec fn in_range(self) -> bool {
        position_in_range(self.x as int) && position_in_range(self.y as int)
    }

    /// Creates a position, saturating each component at the world boundary.
    #[inline(always)]
    pub fn from_i32(x: i32, y: i32) -> (p: Self)
        ensures
            p@.0 as int == clamp_position(x as int),
            p@.1 as int == clamp_position(y as int),
    {
        Self { x: clamp_component(x as i64), y: clamp_component(y as i64) }
    }

    /// Creates a position from raw Q16 coordinates, saturating each component
    /// at the world boundary.
    #[inline(always)]
    pub fn from_raw(x: i32, y: i32) -> (p: Self)
        ensures
            p@.0 as int == clamp_position(x as int),
            p@.1 as int == clamp_position(y as int),
    {
        Self::from_i32(x, y)
    }

    /// Creates a position from wide coordinates, saturating at the boundary.
    #[inline(always)]
    pub fn from_i64(x: i64, y: i64) -> (p: Self)
        ensures
            p@.0 as int == clamp_position(x as int),
            p@.1 as int == clamp_position(y as int),
    {
        Self { x: clamp_component(x), y: clamp_component(y) }
    }

    /// Creates a position from very wide coordinates, saturating at the
    /// boundary.
    pub fn from_i128(x: i128, y: i128) -> (p: Self)
        ensures
            p@.0 as int == clamp_position(x as int),
            p@.1 as int == clamp_position(y as int),
    {
        let cx: i64 = if x < MIN_POSITION as i128 {
            MIN_POSITION as i64
        } else if x > MAX_POSITION as i128 {
            MAX_POSITION as i64
        } else {
            x as i64
        };
        let cy: i64 = if y < MIN_POSITION as i128 {
            MIN_POSITION as i64
        } else if y > MAX_POSITION as i128 {
            MAX_POSITION as i64
        } else {
            y as i64
        };
        Self::from_i64(cx, cy)
    }

    /// Creates a position only when both coordinates are inside the world.
    #[inline(always)]
    pub fn checked_from_raw(x: i32, y: i32) -> (p: Option<Self>)
        ensures
            p is Some <==> (position_in_range(x as int) && position_in_range(y as int)),
            p matches Some(p) ==> p@ == (x, y),
    {
        let is_x = x >= MIN_POSITION && x <= MAX_POSITION;
        let is_y = y >= MIN_POSITION && y <= MAX_POSITION;
        if is_x && is_y {
            Some(Self { x, y })
        } else {
            None
        }
    }

    #[inline(always)]
    pub fn raw(self) -> (r: [i32; 2])
        ensures
            r[0] == self@.0,
            r[1] == self@.1,
            position_in_range(r[0] as int),
            position_in_range(r[1] as int),
    {
        proof {
            use_type_invariant(&self);
        }
        [self.x, self.y]
    }

    /// The position after one tick at `velocity`.
    pub closed spec fn spec_advance(self, velocity: LinearVelocity) -> Self {
        Self {
            x: clamp_position(self.x + velocity@.0) as i32,
            y: clamp_position(self.y + velocity@.1) as i32,
        }
    }

    /// Components of the position after one tick at `velocity`.
    pub proof fn lemma_spec_advance(position: Self, velocity: LinearVelocity)
        ensures
            position.spec_advance(velocity)@.0 as int == clamp_position(position@.0 as int + velocity@.0 as int),
            position.spec_advance(velocity)@.1 as int == clamp_position(position@.1 as int + velocity@.1 as int),
    {
    }

    /// Advances the position by one 64 Hz tick using semi-implicit velocity.
    ///
    /// One Q10 velocity unit moves a body by exactly one Q16 position unit per
    /// tick, so no rescaling or rounding is needed. Coordinates saturate at
    /// the world boundary.
    #[inline(always)]
    pub fn advance(self, velocity: LinearVelocity) -> (p: Self)
        ensures
            p == self.spec_advance(velocity),
            p@.0 as int == clamp_position(self@.0 as int + velocity@.0 as int),
            p@.1 as int == clamp_position(self@.1 as int + velocity@.1 as int),
    {
        let own = self.raw();
        let x: i32 = own[0];
        let y: i32 = own[1];
        let velocity_raw = velocity.raw();
        let vx: i32 = velocity_raw[0];
        let vy: i32 = velocity_raw[1];
        Self::from_i64(x as i64 + vx as i64, y as i64 + vy as i64)
    }

    /// Returns the component-wise midpoint, rounded toward zero.
    #[inline(always)]
    pub fn midpoint(self, other: Self) -> (m: Self)
        ensures
            m@.0 as int == trunc_div(self@.0 as int + other@.0 as int, 2),
            m@.1 as int == trunc_div(self@.1 as int + other@.1 as int, 2),
    {
        let own = self.raw();
        let ax: i32 = own[0];
        let ay: i32 = own[1];
        let other_raw = other.raw();
        let bx: i32 = other_raw[0];
        let by: i32 = other_raw[1];
        Self { x: (ax + bx) / 2, y: (ay + by) / 2 }
    }

    /// Returns the exact raw Q16 displacement `self - rhs`.
    #[inline(always)]
    pub fn diff(self, rhs: Self) -> (d: RawVec2)
        ensures
            d@.0 as int == self@.0 as int - rhs@.0 as int,
            d@.1 as int == self@.1 as int - rhs@.1 as int,
            -2 * MAX_POSITION <= d@.0 <= 2 * MAX_POSITION,
            -2 * MAX_POSITION <= d@.1 <= 2 * MAX_POSITION,
    {
        let a = self.raw();
        let b = rhs.raw();
        RawVec2::from_i32(a[0] - b[0], a[1] - b[1])
    }

    /// Squared raw Q16 distance, with 32 fractional bits.
    #[inline(always)]
    pub fn squared_distance(self, other: Self) -> (d: u64)
        ensures
            d as int == (self@.0 - other@.0) * (self@.0 - other@.0) + (self@.1 - other@.1) * (self@.1 - other@.1),
    {
        self.diff(other).squared_magnitude()
    }

    /// Translates by a geometry offset, saturating at the world boundary.
    #[inline(always)]
    pub fn add_point(self, point: GeometryPoint) -> (p: Self)
        ensures
            p@.0 as int == clamp_position(self@.0 as int + point@.0 as int),
            p@.1 as int == clamp_position(self@.1 as int + point@.1 as int),
    {
        let own = self.raw();
        let ax: i32 = own[0];
        let ay: i32 = own[1];
        let point_raw = point.raw();
        let bx: i32 = point_raw[0];
        let by: i32 = point_raw[1];
        Self::from_i32(ax + bx, ay + by)
    }

    /// Translates by a geometry offset whose sum stays in the geometry range.
    #[inline(always)]
    pub fn add_geometry_unchecked(self, point: GeometryPoint) -> (g: GeometryPoint)
        requires
            point_in_range(self@.0 as int + point@.0 as int),
            point_in_range(self@.1 as int + point@.1 as int),
        ensures
            g@.0 as int == self@.0 as int + point@.0 as int,
            g@.1 as int == self@.1 as int + point@.1 as int,
    {
        let own = self.raw();
        let ax: i32 = own[0];
        let ay: i32 = own[1];
        let point_raw = point.raw();
        let bx: i32 = point_raw[0];
        let by: i32 = point_raw[1];
        GeometryPoint::from_i32_unchecked(ax + bx, ay + by)
    }

    /// Rotates this body-local point about the origin with integer Q30
    /// coefficients. Because the rotation is non-expanding, the result fits
    /// the geometry range and is no farther from the origin per component
    /// than any radius bounding the input.
    #[inline]
    pub fn rotate(self, angle: Angle) -> (g: GeometryPoint)
        ensures
            g@.0 as int == rotated_x(self@.0 as int, self@.1 as int, sin_cos_spec(angle@)),
            g@.1 as int == rotated_y(self@.0 as int, self@.1 as int, sin_cos_spec(angle@)),
    {
        let sc = angle.sin_cos_q30();
        let sin = sc[0] as i64;
        let cos = sc[1] as i64;
        let r = self.raw();
        let px = r[0] as i64;
        let py = r[1] as i64;
        proof {
            lemma_rotation_fits(px as int, py as int, sin as int, cos as int);
        }
        let x = (px * cos - py * sin).round_shift(30);
        let y = (px * sin + py * cos).round_shift(30);
        GeometryPoint::from_i64_unchecked(x, y)
    }

    pub closed spec fn spec_diff(self, rhs: Self) -> RawVec2 {
        RawVec2::spec_new(self@.0 - rhs@.0, self@.1 - rhs@.1)
    }
}

/// X coordinate of `(px, py)` rotated by Q30 `(sin, cos)`, rounded.
pub open spec fn rotated_x(px: int, py: int, sin_cos: (int, int)) -> int {
    round_shift_spec(px * sin_cos.1 - py * sin_cos.0, 30)
}

/// Y coordinate of `(px, py)` rotated by Q30 `(sin, cos)`, rounded.
pub open spec fn rotated_y(px: int, py: int, sin_cos: (int, int)) -> int {
    round_shift_spec(px * sin_cos.0 + py * sin_cos.1, 30)
}

proof fn lemma_rotation_fits(px: int, py: int, sin: int, cos: int)
    requires
        position_in_range(px),
        position_in_range(py),
        -0x4000_0000 <= sin <= 0x4000_0000,
        -0x4000_0000 <= cos <= 0x4000_0000,
    ensures
        -0x0800_0000_0000_0000 <= px * cos <= 0x0800_0000_0000_0000,
        -0x0800_0000_0000_0000 <= py * sin <= 0x0800_0000_0000_0000,
        -0x0800_0000_0000_0000 <= px * sin <= 0x0800_0000_0000_0000,
        -0x0800_0000_0000_0000 <= py * cos <= 0x0800_0000_0000_0000,
        -0x2000_0000_0000_0000 < px * cos - py * sin < 0x2000_0000_0000_0000,
        -0x2000_0000_0000_0000 < px * sin + py * cos < 0x2000_0000_0000_0000,
        point_in_range(round_shift_spec(px * cos - py * sin, 30)),
        point_in_range(round_shift_spec(px * sin + py * cos, 30)),
{
    let bound: int = 0x3fff_fffeint * 0x4000_0000int;
    assert(-0x0800_0000_0000_0000 <= px * cos <= 0x0800_0000_0000_0000) by (nonlinear_arith)
        requires -0x1fff_ffff <= px <= 0x1fff_ffff, -0x4000_0000 <= cos <= 0x4000_0000;
    assert(-0x0800_0000_0000_0000 <= py * sin <= 0x0800_0000_0000_0000) by (nonlinear_arith)
        requires -0x1fff_ffff <= py <= 0x1fff_ffff, -0x4000_0000 <= sin <= 0x4000_0000;
    assert(-0x0800_0000_0000_0000 <= px * sin <= 0x0800_0000_0000_0000) by (nonlinear_arith)
        requires -0x1fff_ffff <= px <= 0x1fff_ffff, -0x4000_0000 <= sin <= 0x4000_0000;
    assert(-0x0800_0000_0000_0000 <= py * cos <= 0x0800_0000_0000_0000) by (nonlinear_arith)
        requires -0x1fff_ffff <= py <= 0x1fff_ffff, -0x4000_0000 <= cos <= 0x4000_0000;
    assert(-bound <= px * cos - py * sin <= bound) by (nonlinear_arith)
        requires
            -0x1fff_ffff <= px <= 0x1fff_ffff,
            -0x1fff_ffff <= py <= 0x1fff_ffff,
            -0x4000_0000 <= sin <= 0x4000_0000,
            -0x4000_0000 <= cos <= 0x4000_0000,
            bound == 0x3fff_fffe * 0x4000_0000,
    ;
    assert(-bound <= px * sin + py * cos <= bound) by (nonlinear_arith)
        requires
            -0x1fff_ffff <= px <= 0x1fff_ffff,
            -0x1fff_ffff <= py <= 0x1fff_ffff,
            -0x4000_0000 <= sin <= 0x4000_0000,
            -0x4000_0000 <= cos <= 0x4000_0000,
            bound == 0x3fff_fffe * 0x4000_0000,
    ;
    vstd::arithmetic::power2::lemma2_to64();
    lemma_round_shift_bound(px * cos - py * sin, 30, bound);
    lemma_round_shift_bound(px * sin + py * cos, 30, bound);
    vstd::arithmetic::div_mod::lemma_div_by_multiple(0x3fff_fffe, 0x4000_0000);
}

/// A rotation by a non-expanding Q30 `(sin, cos)` keeps each rounded
/// coordinate of a point of radius at most `radius` within `radius`.
pub proof fn lemma_rotation_within_radius(px: int, py: int, sin: int, cos: int, radius: int)
    requires
        radius >= 0,
        px * px + py * py <= radius * radius,
        sin * sin + cos * cos <= unit_q60(),
    ensures
        -radius <= round_shift_spec(px * cos - py * sin, 30) <= radius,
        -radius <= round_shift_spec(px * sin + py * cos, 30) <= radius,
{
    let a = px * cos - py * sin;
    let b = px * sin + py * cos;
    let limit = radius * 0x4000_0000;
    let pc = px * cos;
    let ps = px * sin;
    let qc = py * cos;
    let qs = py * sin;
    assert(pc * qs == ps * qc) by (nonlinear_arith)
        requires pc == px * cos, qs == py * sin, ps == px * sin, qc == py * cos;
    assert(a * a == pc * pc - 2 * (pc * qs) + qs * qs) by (nonlinear_arith)
        requires a == pc - qs;
    assert(b * b == ps * ps + 2 * (ps * qc) + qc * qc) by (nonlinear_arith)
        requires b == ps + qc;
    assert(pc * pc + ps * ps == (px * px) * (sin * sin + cos * cos)) by (nonlinear_arith)
        requires pc == px * cos, ps == px * sin;
    assert(qc * qc + qs * qs == (py * py) * (sin * sin + cos * cos)) by (nonlinear_arith)
        requires qc == py * cos, qs == py * sin;
    assert(a * a + b * b == (px * px + py * py) * (sin * sin + cos * cos)) by (nonlinear_arith)
        requires
            a * a + b * b == (px * px) * (sin * sin + cos * cos) + (py * py) * (sin * sin + cos * cos);
    assert(0 <= px * px + py * py) by (nonlinear_arith);
    assert(0 <= sin * sin + cos * cos) by (nonlinear_arith);
    assert((px * px + py * py) * (sin * sin + cos * cos) <= (radius * radius) * 0x1000_0000_0000_0000)
        by (nonlinear_arith)
        requires
            0 <= px * px + py * py <= radius * radius,
            0 <= sin * sin + cos * cos <= 0x1000_0000_0000_0000,
    ;
    assert(limit * limit == (radius * radius) * 0x1000_0000_0000_0000) by (nonlinear_arith)
        requires limit == radius * 0x4000_0000;
    assert(-limit <= a <= limit) by (nonlinear_arith)
        requires a * a + b * b <= limit * limit, limit >= 0;
    assert(-limit <= b <= limit) by (nonlinear_arith)
        requires a * a + b * b <= limit * limit, limit >= 0;
    vstd::arithmetic::power2::lemma2_to64();
    lemma_round_shift_bound(a, 30, limit);
    lemma_round_shift_bound(b, 30, limit);
    vstd::arithmetic::div_mod::lemma_div_by_multiple(radius, 0x4000_0000);
    assert(round_shift_spec(a, 30) <= radius) by {
        if a >= 0 {
            vstd::arithmetic::div_mod::lemma_div_is_ordered(a + 0x2000_0000, limit + 0x2000_0000, 0x4000_0000);
            vstd::arithmetic::div_mod::lemma_div_plus_one(limit, 0x4000_0000);
            assert((limit + 0x2000_0000) / 0x4000_0000 == radius) by {
                vstd::arithmetic::div_mod::lemma_fundamental_div_mod_converse(limit + 0x2000_0000, 0x4000_0000, radius, 0x2000_0000);
            }
        }
    }
    assert(round_shift_spec(a, 30) >= -radius) by {
        if a < 0 {
            vstd::arithmetic::div_mod::lemma_div_is_ordered(-a + 0x2000_0000, limit + 0x2000_0000, 0x4000_0000);
            vstd::arithmetic::div_mod::lemma_fundamental_div_mod_converse(limit + 0x2000_0000, 0x4000_0000, radius, 0x2000_0000);
        }
    }
    assert(round_shift_spec(b, 30) <= radius) by {
        if b >= 0 {
            vstd::arithmetic::div_mod::lemma_div_is_ordered(b + 0x2000_0000, limit + 0x2000_0000, 0x4000_0000);
            vstd::arithmetic::div_mod::lemma_fundamental_div_mod_converse(limit + 0x2000_0000, 0x4000_0000, radius, 0x2000_0000);
        }
    }
    assert(round_shift_spec(b, 30) >= -radius) by {
        if b < 0 {
            vstd::arithmetic::div_mod::lemma_div_is_ordered(-b + 0x2000_0000, limit + 0x2000_0000, 0x4000_0000);
            vstd::arithmetic::div_mod::lemma_fundamental_div_mod_converse(limit + 0x2000_0000, 0x4000_0000, radius, 0x2000_0000);
        }
    }
}

#[inline(always)]
fn clamp_component(value: i64) -> (r: i32)
    ensures
        r as int == clamp_position(value as int),
{
    if value < MIN_POSITION as i64 {
        MIN_POSITION
    } else if value > MAX_POSITION as i64 {
        MAX_POSITION
    } else {
        value as i32
    }
}

impl core::ops::Sub for Position {
    type Output = RawVec2;

    /// Returns the exact raw Q16 displacement `self - rhs`.
    #[inline(always)]
    fn sub(self, rhs: Self) -> (d: RawVec2) {
        let d = self.diff(rhs);
        proof {
            RawVec2::lemma_spec_new(self@.0 - rhs@.0, self@.1 - rhs@.1);
            RawVec2::lemma_view_eq(d, self.spec_diff(rhs));
        }
        d
    }
}

impl vstd::std_specs::ops::SubSpecImpl for Position {
    open spec fn obeys_sub_spec() -> bool {
        true
    }

    open spec fn sub_req(self, rhs: Self) -> bool {
        true
    }

    open spec fn sub_spec(self, rhs: Self) -> RawVec2 {
        self.spec_diff(rhs)
    }
}

} // verus!
