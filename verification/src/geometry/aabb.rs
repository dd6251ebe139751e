use vstd::prelude::*;

use i_float::int::point::IntPoint;
use i_float::int::rect::IntRect;

use super::point::{GeometryPoint, point_in_range};

verus! {

/// `IntRect::with_ab` from `i_float`: the smallest rectangle holding two
/// points, as `(min_x, max_x, min_y, max_y)`. The contract states the
/// component-wise minima and maxima that the crate's source computes.
#[verifier::external_body]
fn rect_with_ab(ax: i32, ay: i32, bx: i32, by: i32) -> (r: (i32, i32, i32, i32))
    ensures
        r.0 == if ax < bx { ax } else { bx },
        r.1 == if ax < bx { bx } else { ax },
        r.2 == if ay < by { ay } else { by },
        r.3 == if ay < by { by } else { ay },
{
    let rect = IntRect::with_ab(IntPoint::new(ax, ay), IntPoint::new(bx, by));
    (rect.min_x, rect.max_x, rect.min_y, rect.max_y)
}

/// `IntRect::with_rects` from `i_float`: the union of two rectangles given as
/// `(min_x, max_x, min_y, max_y)`. The contract states the component-wise
/// `min`/`max` that the crate's source computes.
#[verifier::external_body]
fn rect_with_rects(a: (i32, i32, i32, i32), b: (i32, i32, i32, i32)) -> (r: (i32, i32, i32, i32))
    ensures
        r.0 == if a.0 <= b.0 { a.0 } else { b.0 },
        r.1 == if a.1 >= b.1 { a.1 } else { b.1 },
        r.2 == if a.2 <= b.2 { a.2 } else { b.2 },
        r.3 == if a.3 >= b.3 { a.3 } else { b.3 },
{
    let first = IntRect::new(a.0, a.1, a.2, a.3);
    let second = IntRect::new(b.0, b.1, b.2, b.3);
    let rect = IntRect::with_rects(&first, &second);
    (rect.min_x, rect.max_x, rect.min_y, rect.max_y)
}

/// `IntRect::is_intersect_border_include` from `i_float`: overlap test that
/// counts shared borders, on rectangles given as `(min_x, max_x, min_y, max_y)`.
/// The contract states the four comparisons of the crate's source.
#[verifier::external_body]
fn rect_intersects(a: (i32, i32, i32, i32), b: (i32, i32, i32, i32)) -> (r: bool)
    ensures
        r == (a.0 <= b.1 && a.1 >= b.0 && a.2 <= b.3 && a.3 >= b.2),
{
    let first = IntRect::new(a.0, a.1, a.2, a.3);
    let second = IntRect::new(b.0, b.1, b.2, b.3);
    first.is_intersect_border_include(&second)
}

/// Axis-aligned world-space boundary stored as raw Q16 coordinates.
///
/// Borders are included in intersection tests, so exactly touching shapes
/// remain collision candidates. Bounds use the derived geometry range.
#[derive(Debug, Clone, Copy, PartialEq, Eq, Structural)]
pub struct Aabb {
    pub(crate) min_x: i32,
    pub(crate) max_x: i32,
    pub(crate) min_y: i32,
    pub(crate) max_y: i32,
}

impl View for Aabb {
    /// `(min_x, max_x, min_y, max_y)`.
    type V = (i32, i32, i32, i32);

    closed spec fn view(&self) -> (i32, i32, i32, i32) {
        (self.min_x, self.max_x, self.min_y, self.max_y)
    }
}

/// The smallest bounds `(min_x, max_x, min_y, max_y)` containing both.
pub open spec fn union_bounds(a: (i32, i32, i32, i32), b: (i32, i32, i32, i32)) -> (i32, i32, i32, i32) {
    (
        if a.0 <= b.0 { a.0 } else { b.0 },
        if a.1 >= b.1 { a.1 } else { b.1 },
        if a.2 <= b.2 { a.2 } else { b.2 },
        if a.3 >= b.3 { a.3 } else { b.3 },
    )
}

/// The four bounds are ordered geometry coordinates.
pub open spec fn aabb_valid(b: (i32, i32, i32, i32)) -> bool {
    &&& point_in_range(b.0 as int) && point_in_range(b.1 as int)
    &&& point_in_range(b.2 as int) && point_in_range(b.3 as int)
    &&& b.0 <= b.1 && b.2 <= b.3
}

impl Aabb {
    #[verifier::type_invariant]
    closed spec fn valid(self) -> bool {
        aabb_valid(self@)
    }

    /// Creates a boundary from its minimum and maximum corners; `None` when
    /// a minimum exceeds its maximum.
    pub fn from_min_max(min: GeometryPoint, max: GeometryPoint) -> (b: Option<Self>)
        ensures
            b is Some <==> (min@.0 <= max@.0 && min@.1 <= max@.1),
            b matches Some(b) ==> b@ == (min@.0, max@.0, min@.1, max@.1),
    {
        let min_raw = min.raw();
        let min_x: i32 = min_raw[0];
        let min_y: i32 = min_raw[1];
        let max_raw = max.raw();
        let max_x: i32 = max_raw[0];
        let max_y: i32 = max_raw[1];
        if min_x <= max_x && min_y <= max_y {
            Some(Self { min_x, max_x, min_y, max_y })
        } else {
            None
        }
    }

    /// Creates the smallest boundary containing both points.
    pub fn from_points(a: GeometryPoint, b: GeometryPoint) -> (r: Self)
        ensures
            r@.0 as int == if a@.0 < b@.0 { a@.0 as int } else { b@.0 as int },
            r@.1 as int == if a@.0 < b@.0 { b@.0 as int } else { a@.0 as int },
            r@.2 as int == if a@.1 < b@.1 { a@.1 as int } else { b@.1 as int },
            r@.3 as int == if a@.1 < b@.1 { b@.1 as int } else { a@.1 as int },
    {
        let a_raw = a.raw();
        let ax: i32 = a_raw[0];
        let ay: i32 = a_raw[1];
        let b_raw = b.raw();
        let bx: i32 = b_raw[0];
        let by: i32 = b_raw[1];
        let (min_x, max_x, min_y, max_y) = rect_with_ab(ax, ay, bx, by);
        Self { min_x, max_x, min_y, max_y }
    }

    /// Creates a boundary whose ordering and range the caller has established.
    pub fn from_raw_unchecked(min_x: i32, max_x: i32, min_y: i32, max_y: i32) -> (r: Self)
        requires
            aabb_valid((min_x, max_x, min_y, max_y)),
        ensures
            r@ == (min_x, max_x, min_y, max_y),
    {
        Self { min_x, max_x, min_y, max_y }
    }

    /// The four raw bounds, `(min_x, max_x, min_y, max_y)`.
    pub fn bounds(self) -> (r: (i32, i32, i32, i32))
        ensures
            r == self@,
            aabb_valid(r),
    {
        proof {
            use_type_invariant(&self);
        }
        (self.min_x, self.max_x, self.min_y, self.max_y)
    }

    pub fn min(self) -> (p: GeometryPoint)
        ensures
            p@ == (self@.0, self@.2),
    {
        let (min_x, _, min_y, _) = self.bounds();
        GeometryPoint::from_i32_unchecked(min_x, min_y)
    }

    pub fn max(self) -> (p: GeometryPoint)
        ensures
            p@ == (self@.1, self@.3),
    {
        let (_, max_x, _, max_y) = self.bounds();
        GeometryPoint::from_i32_unchecked(max_x, max_y)
    }

    /// Tests overlap including shared borders.
    pub fn intersects(self, other: Self) -> (r: bool)
        ensures
            r == (self@.0 <= other@.1 && self@.1 >= other@.0 && self@.2 <= other@.3 && self@.3 >= other@.2),
    {
        rect_intersects(self.bounds(), other.bounds())
    }

    /// The smallest boundary containing both boundaries.
    pub fn union(self, other: Self) -> (r: Self)
        ensures
            r@.0 as int == if self@.0 <= other@.0 { self@.0 as int } else { other@.0 as int },
            r@.1 as int == if self@.1 >= other@.1 { self@.1 as int } else { other@.1 as int },
            r@.2 as int == if self@.2 <= other@.2 { self@.2 as int } else { other@.2 as int },
            r@.3 as int == if self@.3 >= other@.3 { self@.3 as int } else { other@.3 as int },
    {
        let (min_x, max_x, min_y, max_y) = rect_with_rects(self.bounds(), other.bounds());
        Self { min_x, max_x, min_y, max_y }
    }
}

} // verus!
