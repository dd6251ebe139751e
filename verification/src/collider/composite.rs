use vstd::prelude::*;

use crate::geometry::aabb::{Aabb, union_bounds};
use crate::ops::div_round_shift_spec;
use crate::transform::Transform;
use super::circle::{Circle, circle_bounds, circle_mass_properties};
use super::convex::{Convex, convex_bounds, convex_mass_properties};
use super::inertia::from_q24_per_q32_ratio;

verus! {

/// Advisory complexity threshold for composite colliders.
///
/// This is not a storage or correctness limit: any number of parts is
/// accepted, but narrow-phase work grows with the product of the part counts
/// of two colliding composite colliders.
pub const RECOMMENDED_MAX_COMPOSITE_PARTS: usize = 16;

/// Convex primitive supported directly by the narrow phase.
#[derive(Debug, Clone, Copy, PartialEq, Eq, Hash)]
pub enum SimpleCollider {
    Circle(Circle),
    Convex(Convex),
}

/// Bounding box of a simple collider placed by `transform`.
pub open spec fn simple_bounds(collider: SimpleCollider, transform: Transform) -> (i32, i32, i32, i32) {
    match collider {
        SimpleCollider::Circle(circle) => circle_bounds(circle@, transform),
        SimpleCollider::Convex(convex) => convex_bounds(convex@.0, transform),
    }
}

/// `(mass_weight, mass_weight * I/m)` of a simple collider.
pub open spec fn simple_mass_properties(collider: SimpleCollider) -> (int, int) {
    match collider {
        SimpleCollider::Circle(circle) => circle_mass_properties(circle@),
        SimpleCollider::Convex(convex) => convex_mass_properties(convex@.0),
    }
}

/// `a + b`, saturated at `u128::MAX`.
pub open spec fn saturating_add_u128(a: int, b: int) -> int {
    if a + b > u128::MAX { u128::MAX as int } else { a + b }
}

/// Saturated sum of the mass weights of `parts[0..k]`.
pub open spec fn total_mass_weight(parts: Seq<SimpleCollider>, k: int) -> int
    decreases k,
{
    if k <= 0 {
        0
    } else {
        saturating_add_u128(total_mass_weight(parts, k - 1), simple_mass_properties(parts[k - 1]).0)
    }
}

/// Saturated sum of the weighted inertias of `parts[0..k]`.
pub open spec fn total_weighted_inertia(parts: Seq<SimpleCollider>, k: int) -> int
    decreases k,
{
    if k <= 0 {
        0
    } else {
        saturating_add_u128(total_weighted_inertia(parts, k - 1), simple_mass_properties(parts[k - 1]).1)
    }
}

/// Union of the bounding boxes of `parts[0..k]`, `k >= 1`.
pub open spec fn composite_bounds(parts: Seq<SimpleCollider>, transform: Transform, k: int) -> (i32, i32, i32, i32)
    decreases k,
{
    if k <= 1 {
        simple_bounds(parts[0], transform)
    } else {
        union_bounds(composite_bounds(parts, transform, k - 1), simple_bounds(parts[k - 1], transform))
    }
}

impl SimpleCollider {
    /// Bounding box of the collider placed by `transform`.
    #[inline]
    pub fn aabb(self, transform: Transform) -> (b: Aabb)
        ensures
            b@ == simple_bounds(self, transform),
    {
        match self {
            Self::Circle(circle) => circle.aabb(transform),
            Self::Convex(convex) => convex.aabb(transform),
        }
    }

    /// Proportional `(mass_weight, mass_weight * I/m)` values.
    #[inline(always)]
    pub fn mass_properties(self) -> (r: (u64, u128))
        ensures
            (r.0 as int, r.1 as int) == simple_mass_properties(self),
            0 < r.1 <= 0x388c_7ffc_7738_000e_2320_0000_0000_0000,
    {
        match self {
            Self::Circle(circle) => circle.mass_properties(),
            Self::Convex(convex) => convex.mass_properties(),
        }
    }
}

impl From<Circle> for SimpleCollider {
    #[inline(always)]
    fn from(circle: Circle) -> (r: Self) {
        Self::Circle(circle)
    }
}

impl vstd::std_specs::convert::FromSpecImpl<Circle> for SimpleCollider {
    open spec fn obeys_from_spec() -> bool {
        true
    }

    open spec fn from_spec(circle: Circle) -> Self {
        Self::Circle(circle)
    }
}

impl From<Convex> for SimpleCollider {
    #[inline(always)]
    fn from(convex: Convex) -> (r: Self) {
        Self::Convex(convex)
    }
}

impl vstd::std_specs::convert::FromSpecImpl<Convex> for SimpleCollider {
    open spec fn obeys_from_spec() -> bool {
        true
    }

    open spec fn from_spec(convex: Convex) -> Self {
        Self::Convex(convex)
    }
}

/// Immutable, non-empty collection of simple colliders in body-local
/// coordinates.
///
/// Dynamic-body mass is distributed between parts in proportion to their
/// area. Overlapping parts contribute their full area independently.
#[derive(Debug, PartialEq, Eq, Hash)]
pub struct CompositeCollider {
    pub(crate) simple_colliders: Vec<SimpleCollider>,
}

impl View for CompositeCollider {
    type V = Seq<SimpleCollider>;

    closed spec fn view(&self) -> Seq<SimpleCollider> {
        self.simple_colliders@
    }
}

impl Clone for CompositeCollider {
    fn clone(&self) -> (r: Self)
        ensures
            r@ == self@,
    {
        proof {
            use_type_invariant(self);
        }
        let mut parts: Vec<SimpleCollider> = Vec::new();
        let source = self.simple_colliders.as_slice();
        for i in 0..source.len()
            invariant
                source@ == self@,
                parts@ == self@.subrange(0, i as int),
        {
            parts.push(source[i]);
        }
        Self { simple_colliders: parts }
    }
}

impl CompositeCollider {
    #[verifier::type_invariant]
    closed spec fn non_empty(self) -> bool {
        self.simple_colliders@.len() >= 1
    }

    /// Builds a composite collider from at least one simple collider. More
    /// than [`RECOMMENDED_MAX_COMPOSITE_PARTS`] parts are accepted.
    #[inline]
    pub fn new(simple_colliders: Vec<SimpleCollider>) -> (r: Self)
        requires
            simple_colliders@.len() >= 1,
        ensures
            r@ == simple_colliders@,
    {
        Self { simple_colliders }
    }

    #[inline(always)]
    pub fn len(&self) -> (n: usize)
        ensures
            n == self@.len(),
            n >= 1,
    {
        proof {
            use_type_invariant(self);
        }
        self.simple_colliders.len()
    }

    /// Always `false`: a composite has at least one part.
    #[inline(always)]
    pub fn is_empty(&self) -> (r: bool)
        ensures
            r == (self@.len() == 0),
            !r,
    {
        proof {
            use_type_invariant(self);
        }
        false
    }

    #[inline(always)]
    pub fn simple_colliders(&self) -> (s: &[SimpleCollider])
        ensures
            s@ == self@,
    {
        self.simple_colliders.as_slice()
    }

    /// Union of the parts' bounding boxes.
    pub fn aabb(&self, transform: Transform) -> (b: Aabb)
        ensures
            b@ == composite_bounds(self@, transform, self@.len() as int),
    {
        proof {
            use_type_invariant(self);
        }
        let parts = self.simple_colliders.as_slice();
        let n = parts.len();
        let mut result = parts[0].aabb(transform);
        for i in 1..n
            invariant
                n == parts@.len(),
                parts@ == self@,
                result@ == composite_bounds(self@, transform, i as int),
        {
            result = result.union(parts[i].aabb(transform));
        }
        result
    }

    /// Reciprocal moment of inertia about the body origin as unsigned Q40,
    /// with each part's mass in proportion to its area.
    pub fn inverse_inertia_q40(&self, inverse_mass_q24: u32) -> (i: u64)
        ensures
            i == div_round_shift_spec(
                (if inverse_mass_q24 * total_mass_weight(self@, self@.len() as int) > u128::MAX {
                    u128::MAX as int
                } else {
                    inverse_mass_q24 * total_mass_weight(self@, self@.len() as int)
                }) as nat,
                total_weighted_inertia(self@, self@.len() as int) as nat,
                48,
            ),
    {
        proof {
            use_type_invariant(self);
        }
        let parts = self.simple_colliders.as_slice();
        let n = parts.len();
        let mut total_mass: u128 = 0;
        let mut total_inertia: u128 = 0;
        for i in 0..n
            invariant
                n == parts@.len(),
                parts@ == self@,
                total_mass as int == total_mass_weight(self@, i as int),
                total_inertia as int == total_weighted_inertia(self@, i as int),
                i > 0 ==> total_inertia > 0,
        {
            let properties = parts[i].mass_properties();
            let mass_weight = properties.0 as u128;
            let weighted_inertia = properties.1;
            total_mass = if total_mass > u128::MAX - mass_weight { u128::MAX } else { total_mass + mass_weight };
            total_inertia = if total_inertia > u128::MAX - weighted_inertia {
                u128::MAX
            } else {
                total_inertia + weighted_inertia
            };
        }
        proof {
            if total_mass != 0 {
                vstd::arithmetic::div_mod::lemma_fundamental_div_mod(u128::MAX as int, total_mass as int);
                if inverse_mass_q24 as u128 > u128::MAX / total_mass {
                    assert(inverse_mass_q24 * total_mass > u128::MAX) by (nonlinear_arith)
                        requires
                            inverse_mass_q24 >= u128::MAX / total_mass + 1,
                            u128::MAX == total_mass * (u128::MAX / total_mass) + u128::MAX % total_mass,
                            u128::MAX % total_mass < total_mass,
                            total_mass > 0,
                    ;
                } else {
                    assert(inverse_mass_q24 * total_mass <= u128::MAX) by (nonlinear_arith)
                        requires
                            inverse_mass_q24 <= u128::MAX / total_mass,
                            u128::MAX == total_mass * (u128::MAX / total_mass) + u128::MAX % total_mass,
                            u128::MAX % total_mass >= 0,
                            total_mass > 0,
                    ;
                }
            }
        }
        let scaled_mass = if total_mass != 0 && inverse_mass_q24 as u128 > u128::MAX / total_mass {
            u128::MAX
        } else {
            inverse_mass_q24 as u128 * total_mass
        };
        from_q24_per_q32_ratio(scaled_mass, total_inertia)
    }
}

} // verus!
