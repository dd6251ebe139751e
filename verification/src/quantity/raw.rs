use vstd::prelude::*;

use crate::ops::clamp_spec;
use crate::geometry::vec::{cross_spec, dot_spec};

verus! {

/// Largest magnitude of a difference component, `i32::MAX`.
pub const MAX_DIFF_COMPONENT: i32 = 0x7fff_ffff;

/// Bounded raw two-dimensional difference used by geometry.
///
/// `i32::MIN` is excluded, so dot and cross products of two differences
/// always fit in `i64`.
#[derive(Debug, Clone, Copy, PartialEq, Eq, Hash, Default, Structural)]
pub struct DiffVec2 {
    pub(crate) x: i32,
    pub(crate) y: i32,
}

impl View for DiffVec2 {
    type V = (i32, i32);

    closed spec fn view(&self) -> (i32, i32) {
        (self.x, self.y)
    }
}

/// Both components exclude `i32::MIN`.
pub open spec fn diff_in_range(x: int, y: int) -> bool {
    -MAX_DIFF_COMPONENT <= x && -MAX_DIFF_COMPONENT <= y
}

proof fn lemma_diff_products_fit(a: (i32, i32), b: (i32, i32))
    requires
        diff_in_range(a.0 as int, a.1 as int),
        diff_in_range(b.0 as int, b.1 as int),
    ensures
        -0x7fff_ffff * 0x7fff_ffff <= a.0 as int * b.0 as int <= 0x7fff_ffff * 0x7fff_ffff,
        -0x7fff_ffff * 0x7fff_ffff <= a.1 as int * b.1 as int <= 0x7fff_ffff * 0x7fff_ffff,
        -0x7fff_ffff * 0x7fff_ffff <= a.0 as int * b.1 as int <= 0x7fff_ffff * 0x7fff_ffff,
        -0x7fff_ffff * 0x7fff_ffff <= a.1 as int * b.0 as int <= 0x7fff_ffff * 0x7fff_ffff,
        -2 * 0x7fff_ffff * 0x7fff_ffff <= dot_spec(a, b) <= 2 * 0x7fff_ffff * 0x7fff_ffff,
        -2 * 0x7fff_ffff * 0x7fff_ffff <= cross_spec(a, b) <= 2 * 0x7fff_ffff * 0x7fff_ffff,
        0 <= dot_spec(a, a),
{
    assert(-0x7fff_ffff * 0x7fff_ffff <= a.0 as int * b.0 as int <= 0x7fff_ffff * 0x7fff_ffff) by (nonlinear_arith)
        requires -0x7fff_ffff <= a.0 <= 0x7fff_ffff, -0x7fff_ffff <= b.0 <= 0x7fff_ffff;
    assert(-0x7fff_ffff * 0x7fff_ffff <= a.1 as int * b.1 as int <= 0x7fff_ffff * 0x7fff_ffff) by (nonlinear_arith)
        requires -0x7fff_ffff <= a.1 <= 0x7fff_ffff, -0x7fff_ffff <= b.1 <= 0x7fff_ffff;
    assert(-0x7fff_ffff * 0x7fff_ffff <= a.0 as int * b.1 as int <= 0x7fff_ffff * 0x7fff_ffff) by (nonlinear_arith)
        requires -0x7fff_ffff <= a.0 <= 0x7fff_ffff, -0x7fff_ffff <= b.1 <= 0x7fff_ffff;
    assert(-0x7fff_ffff * 0x7fff_ffff <= a.1 as int * b.0 as int <= 0x7fff_ffff * 0x7fff_ffff) by (nonlinear_arith)
        requires -0x7fff_ffff <= a.1 <= 0x7fff_ffff, -0x7fff_ffff <= b.0 <= 0x7fff_ffff;
    assert(0 <= a.0 as int * a.0 as int + a.1 as int * a.1 as int) by (nonlinear_arith);
}

#[inline(always)]
fn clamp_diff_component(value: i64) -> (r: i32)
    ensures
        r as int == clamp_spec(value as int, -0x7fff_ffff, 0x7fff_ffff),
{
    if value < -(i32::MAX as i64) {
        -i32::MAX
    } else if value > i32::MAX as i64 {
        i32::MAX
    } else {
        value as i32
    }
}

impl DiffVec2 {
    pub fn zero() -> (r: Self)
        ensures
            r@ == (0i32, 0i32),
    {
        Self { x: 0, y: 0 }
    }


    #[verifier::type_invariant]
    closed spec fn in_range(self) -> bool {
        diff_in_range(self.x as int, self.y as int)
    }

    /// Creates a bounded raw vector. `i32::MIN` is clamped by one unit
    /// because no subtraction of two valid world coordinates produces it.
    #[inline(always)]
    pub fn from_raw(x: i32, y: i32) -> (v: Self)
        ensures
            v@.0 as int == clamp_spec(x as int, -0x7fff_ffff, 0x7fff_ffff),
            v@.1 as int == clamp_spec(y as int, -0x7fff_ffff, 0x7fff_ffff),
    {
        Self::from_wide_clamped(x as i64, y as i64)
    }

    /// Creates a difference whose bounded range the caller has established.
    #[inline(always)]
    pub fn from_raw_unchecked(x: i32, y: i32) -> (v: Self)
        requires
            diff_in_range(x as int, y as int),
        ensures
            v@ == (x, y),
    {
        Self { x, y }
    }

    /// Clamps a wide pair into the bounded difference range.
    #[inline(always)]
    pub fn from_wide_clamped(x: i64, y: i64) -> (v: Self)
        ensures
            v@.0 as int == clamp_spec(x as int, -0x7fff_ffff, 0x7fff_ffff),
            v@.1 as int == clamp_spec(y as int, -0x7fff_ffff, 0x7fff_ffff),
    {
        Self { x: clamp_diff_component(x), y: clamp_diff_component(y) }
    }

    #[inline(always)]
    pub fn raw(self) -> (r: [i32; 2])
        ensures
            r[0] == self@.0,
            r[1] == self@.1,
            diff_in_range(r[0] as int, r[1] as int),
    {
        proof {
            use_type_invariant(&self);
        }
        [self.x, self.y]
    }

    #[inline(always)]
    pub fn dot(self, other: Self) -> (d: i64)
        ensures
            d as int == dot_spec(self@, other@),
    {
        proof {
            use_type_invariant(&self);
            use_type_invariant(&other);
            lemma_diff_products_fit(self@, other@);
        }
        self.x as i64 * other.x as i64 + self.y as i64 * other.y as i64
    }

    #[inline(always)]
    pub fn cross(self, other: Self) -> (c: i64)
        ensures
            c as int == cross_spec(self@, other@),
    {
        proof {
            use_type_invariant(&self);
            use_type_invariant(&other);
            lemma_diff_products_fit(self@, other@);
        }
        self.x as i64 * other.y as i64 - self.y as i64 * other.x as i64
    }

    #[inline(always)]
    pub fn squared_magnitude(self) -> (m: u64)
        ensures
            m as int == dot_spec(self@, self@),
    {
        proof {
            use_type_invariant(&self);
            lemma_diff_products_fit(self@, self@);
        }
        self.dot(self) as u64
    }
}

} // verus!
