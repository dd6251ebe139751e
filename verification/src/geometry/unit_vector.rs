use vstd::prelude::*;

use crate::geometry::vec::{RawVec2, dot_spec};
use crate::ops::{RoundShift, clamp_spec, is_isqrt, isqrt_spec, isqrt_u64, round_shift_spec, trunc_div};
use crate::quantity::angle::Angle;
use crate::quantity::cordic::sin_cos_spec;
use crate::quantity::position::{lemma_rotation_within_radius, rotated_x, rotated_y};
use crate::quantity::raw::{DiffVec2, diff_in_range};

verus! {

/// One in Q30.
pub const UNIT_Q30: i32 = 0x4000_0000;

/// Dimensionless direction stored as signed Q30 components.
///
/// Normalization bounds each component by one (`2^30`); rotation keeps every
/// component strictly inside the `i32` range, so products with bounded
/// vectors fit in `i64`.
#[derive(Debug, Clone, Copy, PartialEq, Eq, Hash, Structural)]
pub struct UnitVector {
    pub(crate) x: i32,
    pub(crate) y: i32,
}

impl View for UnitVector {
    type V = (i32, i32);

    closed spec fn view(&self) -> (i32, i32) {
        (self.x, self.y)
    }
}

/// `a * b` for a direction component and an `i32` factor fits comfortably in `i64`.
pub proof fn lemma_component_product(a: int, b: int)
    requires
        -0x7fff_ffff <= a <= 0x7fff_ffff,
        -0x8000_0000 <= b <= 0x7fff_ffff,
    ensures
        -0x4000_0000_0000_0000 <= a * b <= 0x4000_0000_0000_0000,
{
    assert(-0x4000_0000_0000_0000 <= a * b <= 0x4000_0000_0000_0000) by (nonlinear_arith)
        requires
            -0x7fff_ffff <= a <= 0x7fff_ffff,
            -0x8000_0000 <= b <= 0x7fff_ffff,
    ;
}

/// Largest magnitude `scaled_wide_raw` takes, `2^94`: products with a
/// direction component stay below `2^125`.
pub const WIDE_MAGNITUDE_LIMIT: i128 = 0x4000_0000_0000_0000_0000_0000;

proof fn lemma_wide_product(a: int, b: int)
    requires
        -0x8000_0000 <= a <= 0x7fff_ffff,
        -0x4000_0000_0000_0000_0000_0000 <= b <= 0x4000_0000_0000_0000_0000_0000,
    ensures
        -0x2000_0000_0000_0000_0000_0000_0000_0000 <= a * b <= 0x2000_0000_0000_0000_0000_0000_0000_0000,
{
    assert(-0x2000_0000_0000_0000_0000_0000_0000_0000 <= a * b <= 0x2000_0000_0000_0000_0000_0000_0000_0000)
        by (nonlinear_arith)
        requires
            -0x8000_0000 <= a <= 0x7fff_ffff,
            -0x4000_0000_0000_0000_0000_0000 <= b <= 0x4000_0000_0000_0000_0000_0000,
    ;
}

/// `value / 2^30` rounded half away from zero, for wide products.
fn round_shift_q30_wide(value: i128) -> (r: i128)
    requires
        -0x4000_0000_0000_0000_0000_0000_0000_0000 <= value <= 0x4000_0000_0000_0000_0000_0000_0000_0000,
    ensures
        r as int == round_shift_spec(value as int, 30),
{
    let magnitude: u128 = if value < 0 { (-value) as u128 } else { value as u128 };
    let sum: u128 = magnitude + 0x2000_0000;
    proof {
        vstd::bits::lemma_u128_shr_is_div(sum, 30);
        vstd::arithmetic::power2::lemma2_to64();
        vstd::arithmetic::div_mod::lemma_div_is_ordered(sum as int, 0x4000_0000_0000_0000_0000_0000_2000_0000int, 0x4000_0000int);
    }
    let rounded: u128 = sum >> 30u128;
    if value < 0 {
        -(rounded as i128)
    } else {
        rounded as i128
    }
}

/// Normalized Q30 component: `value * 2^30 / length`, truncated toward zero.
pub open spec fn normalized_component(value: int, length: int) -> int {
    trunc_div(value * 0x4000_0000, length)
}

proof fn lemma_normalized_bound(x: int, y: int, length: int)
    requires
        length > 0,
        is_isqrt(x * x + y * y, length),
        -0x7fff_ffff <= x <= 0x7fff_ffff,
    ensures
        -0x4000_0000 <= normalized_component(x, length) <= 0x4000_0000,
{
    let m = if x < 0 { -x } else { x };
    assert(m * m == x * x) by (nonlinear_arith)
        requires m == x || m == -x;
    assert(y * y >= 0) by (nonlinear_arith);
    assert(m <= length) by (nonlinear_arith)
        requires
            m * m == x * x,
            m >= 0,
            x * x + y * y < (length + 1) * (length + 1),
            length >= 0,
            y * y >= 0,
    {
        if m > length {
            assert(m * m >= (length + 1) * (length + 1));
        }
    }
    assert(m * 0x4000_0000 <= length * 0x4000_0000) by (nonlinear_arith)
        requires m <= length;
    vstd::arithmetic::div_mod::lemma_div_is_ordered(m * 0x4000_0000, length * 0x4000_0000, length);
    vstd::arithmetic::div_mod::lemma_div_by_multiple(0x4000_0000, length);
    vstd::arithmetic::mul::lemma_mul_is_commutative(length, 0x4000_0000);
    vstd::arithmetic::div_mod::lemma_div_pos_is_pos(m * 0x4000_0000, length);
    if x < 0 {
        assert(-x * 0x4000_0000 == m * 0x4000_0000);
    }
}

impl UnitVector {
    /// Two directions are equal exactly when their components are.
    pub proof fn lemma_view_injective(a: Self, b: Self)
        ensures
            (a@ == b@) <==> a == b,
    {
    }
}

impl UnitVector {
    pub const FRACTION_BITS: u32 = 30;
    pub fn x() -> (r: Self)
        ensures
            r@ == (0x4000_0000i32, 0i32),
    {
        Self { x: 0x4000_0000, y: 0 }
    }

    pub fn y() -> (r: Self)
        ensures
            r@ == (0i32, 0x4000_0000i32),
    {
        Self { x: 0, y: 0x4000_0000 }
    }


    #[verifier::type_invariant]
    closed spec fn in_range(self) -> bool {
        diff_in_range(self.x as int, self.y as int)
    }

    /// Creates a direction from raw Q30 components.
    #[inline(always)]
    pub fn from_raw(x: i32, y: i32) -> (v: Self)
        requires
            diff_in_range(x as int, y as int),
        ensures
            v@ == (x, y),
    {
        Self { x, y }
    }

    #[inline(always)]
    pub fn raw(self) -> (r: [i32; 2])
        ensures
            r[0] == self@.0,
            r[1] == self@.1,
            diff_in_range(r[0] as int, r[1] as int),
    {
        proof {
            use_type_invariant(&self);
        }
        [self.x, self.y]
    }

    /// Normalizes a non-zero raw vector into a deterministic Q30 direction.
    #[inline]
    pub fn normalized(vector: DiffVec2) -> (n: Option<Self>)
        ensures
            n is Some <==> (vector@.0 != 0 || vector@.1 != 0),
            n matches Some(n) ==> n@.0 as int == normalized_component(vector@.0 as int, isqrt_spec(dot_spec(vector@, vector@)))
                && n@.1 as int == normalized_component(vector@.1 as int, isqrt_spec(dot_spec(vector@, vector@))),
            n matches Some(n) ==> -0x4000_0000 <= n@.0 <= 0x4000_0000 && -0x4000_0000 <= n@.1 <= 0x4000_0000,
    {
        let vector_raw = vector.raw();
        let x: i32 = vector_raw[0];
        let y: i32 = vector_raw[1];
        let squared = vector.squared_magnitude();
        let length = isqrt_u64(squared);
        proof {
            assert(squared as int == (x as int) * (x as int) + (y as int) * (y as int));
            if length == 0 {
                assert((length as int + 1) * (length as int + 1) == 1) by (nonlinear_arith)
                    requires length == 0;
                assert((x as int) * (x as int) + (y as int) * (y as int) < 1);
                assert(x == 0 && y == 0) by (nonlinear_arith)
                    requires x * x + y * y < 1;
            }
            if x == 0 && y == 0 {
                assert(squared == 0);
                assert(length == 0) by (nonlinear_arith)
                    requires length * length <= 0, length >= 0;
            }
        }
        Self::normalized_components(x, y, length)
    }

    /// Normalizes a bounded vector using a floor magnitude already computed
    /// by the caller. `None` for a zero length.
    #[inline]
    pub fn normalized_with_length(vector: RawVec2, length: u64) -> (n: Option<Self>)
        requires
            is_isqrt(dot_spec(vector@, vector@), length as int),
        ensures
            n is Some <==> length != 0,
            n matches Some(n) ==> n@.0 as int == normalized_component(vector@.0 as int, length as int)
                && n@.1 as int == normalized_component(vector@.1 as int, length as int),
            n matches Some(n) ==> -0x4000_0000 <= n@.0 <= 0x4000_0000 && -0x4000_0000 <= n@.1 <= 0x4000_0000,
    {
        let vector_raw = vector.raw();
        let x: i32 = vector_raw[0];
        let y: i32 = vector_raw[1];
        Self::normalized_components(x, y, length)
    }

    #[inline]
    fn normalized_components(x: i32, y: i32, length: u64) -> (n: Option<Self>)
        requires
            is_isqrt(x * x + y * y, length as int),
            diff_in_range(x as int, y as int),
        ensures
            n is Some <==> length != 0,
            n matches Some(n) ==> n@.0 as int == normalized_component(x as int, length as int)
                && n@.1 as int == normalized_component(y as int, length as int),
            n matches Some(n) ==> -0x4000_0000 <= n@.0 <= 0x4000_0000 && -0x4000_0000 <= n@.1 <= 0x4000_0000,
    {
        if length == 0 {
            return None;
        }
        proof {
            lemma_normalized_bound(x as int, y as int, length as int);
            lemma_normalized_bound(y as int, x as int, length as int);
            assert(length < 0x1_0000_0000) by (nonlinear_arith)
                requires
                    length * length <= x * x + y * y,
                    -0x7fff_ffff <= x <= 0x7fff_ffff,
                    -0x7fff_ffff <= y <= 0x7fff_ffff,
                    length >= 0,
            {
                if length >= 0x1_0000_0000 {
                    assert(length * length >= 0x1_0000_0000 * 0x1_0000_0000);
                }
            }
        }
        let scale: i64 = 0x4000_0000;
        let nx = x as i64 * scale / length as i64;
        let ny = y as i64 * scale / length as i64;
        Some(Self { x: nx as i32, y: ny as i32 })
    }

    /// Projects a bounded raw vector onto this direction, preserving the
    /// vector's fixed-point scale: `round(vector · self / 2^30)`.
    #[inline(always)]
    pub fn dot_raw(self, vector: DiffVec2) -> (d: i64)
        ensures
            d as int == round_shift_spec(dot_spec(vector@, self@), 30),
    {
        let own = self.raw();
        let direction = DiffVec2::from_raw_unchecked(own[0], own[1]);
        vector.dot(direction).round_shift(30)
    }

    /// Projects a bounded geometry vector onto this direction:
    /// `round(vector · self / 2^30)`.
    #[inline(always)]
    pub fn dot(self, vector: RawVec2) -> (d: i64)
        ensures
            d as int == round_shift_spec(dot_spec(vector@, self@), 30),
    {
        let vector_raw = vector.raw();
        let vx: i32 = vector_raw[0];
        let vy: i32 = vector_raw[1];
        let own = self.raw();
        let a = DiffVec2::from_raw_unchecked(vx, vy);
        let b = DiffVec2::from_raw_unchecked(own[0], own[1]);
        a.dot(b).round_shift(30)
    }

    /// Scales this direction by a bounded raw magnitude, clamping each
    /// component into the bounded difference range.
    #[inline(always)]
    pub fn scaled_raw(self, magnitude: i32) -> (v: DiffVec2)
        ensures
            v@.0 as int == clamp_spec(round_shift_spec(self@.0 * magnitude, 30), -0x7fff_ffff, 0x7fff_ffff),
            v@.1 as int == clamp_spec(round_shift_spec(self@.1 * magnitude, 30), -0x7fff_ffff, 0x7fff_ffff),
    {
        let own = self.raw();
        let x: i32 = own[0];
        let y: i32 = own[1];
        proof {
            lemma_component_product(x as int, magnitude as int);
            lemma_component_product(y as int, magnitude as int);
        }
        DiffVec2::from_wide_clamped(
            (x as i64 * magnitude as i64).round_shift(30),
            (y as i64 * magnitude as i64).round_shift(30),
        )
    }

    /// Scales this direction by a wide magnitude without clamping:
    /// `round(self * magnitude / 2^30)` per component.
    pub fn scaled_wide_raw(self, magnitude: i128) -> (v: [i128; 2])
        requires
            -WIDE_MAGNITUDE_LIMIT <= magnitude <= WIDE_MAGNITUDE_LIMIT,
        ensures
            v[0] as int == round_shift_spec(self@.0 * magnitude, 30),
            v[1] as int == round_shift_spec(self@.1 * magnitude, 30),
    {
        let own = self.raw();
        let x: i32 = own[0];
        let y: i32 = own[1];
        proof {
            lemma_wide_product(x as int, magnitude as int);
            lemma_wide_product(y as int, magnitude as int);
        }
        [round_shift_q30_wide(x as i128 * magnitude), round_shift_q30_wide(y as i128 * magnitude)]
    }

    /// Projects a vector whose components may exceed the bounded difference
    /// range onto this direction: `round(vector · self / 2^30)`, which must
    /// fit in `i64`.
    pub fn dot_wide_raw(self, vector: [i64; 2]) -> (d: i64)
        requires
            i64::MIN <= round_shift_spec(vector[0] * self@.0 + vector[1] * self@.1, 30) <= i64::MAX,
        ensures
            d as int == round_shift_spec(vector[0] * self@.0 + vector[1] * self@.1, 30),
    {
        let own = self.raw();
        let x: i32 = own[0];
        let y: i32 = own[1];
        proof {
            lemma_wide_product(x as int, vector[0] as int);
            lemma_wide_product(y as int, vector[1] as int);
            assert(vector[0] as int * x as int == x as int * vector[0] as int) by (nonlinear_arith);
            assert(vector[1] as int * y as int == y as int * vector[1] as int) by (nonlinear_arith);
        }
        let sum = vector[0] as i128 * x as i128 + vector[1] as i128 * y as i128;
        round_shift_q30_wide(sum) as i64
    }

    /// The opposite direction.
    #[inline(always)]
    pub fn neg(self) -> (n: Self)
        ensures
            n@.0 as int == -self@.0,
            n@.1 as int == -self@.1,
    {
        let own = self.raw();
        let x: i32 = own[0];
        let y: i32 = own[1];
        Self { x: -x, y: -y }
    }

    /// The direction rotated by `angle` with integer Q30 coefficients.
    #[inline]
    pub fn rotate(self, angle: Angle) -> (r: Self)
        requires
            -0x4000_0000 <= self@.0 <= 0x4000_0000,
            -0x4000_0000 <= self@.1 <= 0x4000_0000,
        ensures
            r@.0 as int == rotated_x(self@.0 as int, self@.1 as int, sin_cos_spec(angle@)),
            r@.1 as int == rotated_y(self@.0 as int, self@.1 as int, sin_cos_spec(angle@)),
            -1_518_500_250 <= r@.0 <= 1_518_500_250,
            -1_518_500_250 <= r@.1 <= 1_518_500_250,
    {
        let sc = angle.sin_cos_q30();
        let sin = sc[0] as i64;
        let cos = sc[1] as i64;
        let own = self.raw();
        let x = own[0] as i64;
        let y = own[1] as i64;
        proof {
            assert(x * x + y * y <= 1_518_500_250 * 1_518_500_250) by (nonlinear_arith)
                requires -0x4000_0000 <= x <= 0x4000_0000, -0x4000_0000 <= y <= 0x4000_0000;
            lemma_rotation_within_radius(x as int, y as int, sin as int, cos as int, 1_518_500_250);
            assert(-0x1000_0000_0000_0000 <= x * cos <= 0x1000_0000_0000_0000) by (nonlinear_arith)
                requires -0x4000_0000 <= x <= 0x4000_0000, -0x4000_0000 <= cos <= 0x4000_0000;
            assert(-0x1000_0000_0000_0000 <= y * sin <= 0x1000_0000_0000_0000) by (nonlinear_arith)
                requires -0x4000_0000 <= y <= 0x4000_0000, -0x4000_0000 <= sin <= 0x4000_0000;
            assert(-0x1000_0000_0000_0000 <= x * sin <= 0x1000_0000_0000_0000) by (nonlinear_arith)
                requires -0x4000_0000 <= x <= 0x4000_0000, -0x4000_0000 <= sin <= 0x4000_0000;
            assert(-0x1000_0000_0000_0000 <= y * cos <= 0x1000_0000_0000_0000) by (nonlinear_arith)
                requires -0x4000_0000 <= y <= 0x4000_0000, -0x4000_0000 <= cos <= 0x4000_0000;
        }
        let rx = (x * cos - y * sin).round_shift(30);
        let ry = (x * sin + y * cos).round_shift(30);
        Self { x: rx as i32, y: ry as i32 }
    }

    /// The direction rotated a quarter turn counter-clockwise.
    #[inline(always)]
    pub fn perpendicular(self) -> (p: Self)
        ensures
            p@.0 as int == -self@.1,
            p@.1 as int == self@.0,
    {
        let own = self.raw();
        let x: i32 = own[0];
        let y: i32 = own[1];
        Self { x: -y, y: x }
    }
}

/// `value` rounded from Q30 to Q14.
pub open spec fn pack_q14(value: int) -> int {
    round_shift_spec(value, 16)
}

proof fn lemma_pack_q14_bound(value: int)
    requires
        -0x4000_0000 <= value <= 0x4000_0000,
    ensures
        -0x4000 <= pack_q14(value) <= 0x4000,
{
    vstd::arithmetic::power2::lemma2_to64();
    let m = if value < 0 { -value } else { value };
    vstd::arithmetic::div_mod::lemma_div_is_ordered(m + 0x8000, 0x4000_0000int + 0x8000, 0x1_0000);
    vstd::arithmetic::div_mod::lemma_div_pos_is_pos(m + 0x8000, 0x1_0000);
    assert((0x4000_0000int + 0x8000) / 0x1_0000 == 0x4000);
}

/// A direction compressed to signed Q14 components for inline storage.
///
/// Each component is at most one (`2^14`) in magnitude, so unpacking to Q30
/// stays inside the bounded difference range.
#[derive(Debug, Clone, Copy, PartialEq, Eq, Hash, Structural)]
pub struct PackedUnitVector {
    pub(crate) x: i16,
    pub(crate) y: i16,
}

impl View for PackedUnitVector {
    /// Components in Q14.
    type V = (i16, i16);

    closed spec fn view(&self) -> (i16, i16) {
        (self.x, self.y)
    }
}

impl PackedUnitVector {
    /// Two packed directions are equal exactly when their components are.
    pub proof fn lemma_view_injective(a: Self, b: Self)
        ensures
            (a@ == b@) <==> a == b,
    {
    }

    #[verifier::type_invariant]
    closed spec fn at_most_one(self) -> bool {
        &&& -0x4000 <= self.x <= 0x4000
        &&& -0x4000 <= self.y <= 0x4000
    }

    /// The +X direction.
    pub fn x() -> (r: Self)
        ensures
            r@ == (0x4000i16, 0i16),
    {
        Self { x: 0x4000, y: 0 }
    }

    /// Rounds a Q30 direction to Q14, half away from zero.
    pub fn from_unit(direction: UnitVector) -> (r: Self)
        requires
            -0x4000_0000 <= direction@.0 <= 0x4000_0000,
            -0x4000_0000 <= direction@.1 <= 0x4000_0000,
        ensures
            r@.0 as int == pack_q14(direction@.0 as int),
            r@.1 as int == pack_q14(direction@.1 as int),
    {
        let raw = direction.raw();
        let x: i32 = raw[0];
        let y: i32 = raw[1];
        proof {
            lemma_pack_q14_bound(x as int);
            lemma_pack_q14_bound(y as int);
        }
        let px = (x as i64).round_shift(16);
        let py = (y as i64).round_shift(16);
        Self { x: px as i16, y: py as i16 }
    }

    /// The stored direction back in Q30.
    pub fn unpack(self) -> (r: UnitVector)
        ensures
            r@.0 as int == self@.0 * 0x1_0000,
            r@.1 as int == self@.1 * 0x1_0000,
            -0x4000_0000 <= r@.0 <= 0x4000_0000,
            -0x4000_0000 <= r@.1 <= 0x4000_0000,
    {
        proof {
            use_type_invariant(&self);
        }
        UnitVector::from_raw(self.x as i32 * 0x1_0000, self.y as i32 * 0x1_0000)
    }
}

} // verus!
