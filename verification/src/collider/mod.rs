//! Collision geometry owned by bodies.

use vstd::prelude::*;

use crate::geometry::aabb::Aabb;
use crate::ops::div_round_shift_spec;
use crate::transform::Transform;

pub mod circle;
pub mod composite;
pub mod convex;
pub mod convex_laws;
pub mod inertia;
pub mod polygon;

pub use circle::Circle;
pub use composite::{CompositeCollider, RECOMMENDED_MAX_COMPOSITE_PARTS, SimpleCollider};
pub use convex::{Convex, ConvexError, MAX_CONVEX_VERTICES, TransformedVertices};

use composite::{composite_bounds, simple_bounds, total_mass_weight, total_weighted_inertia};
use circle::circle_bounds;
use convex::{convex_bounds, twice_area_of, inertia_sum_of};

verus! {

/// Collision geometry owned by a body.
///
/// Simple variants remain inline and allocation-free; a composite owns its
/// immutable list of simple parts.
#[derive(Debug, PartialEq, Eq, Hash)]
pub enum Collider {
    Circle(Circle),
    Convex(Convex),
    Composite(CompositeCollider),
}

/// Bounding box of a collider placed by `transform`.
pub open spec fn collider_bounds(collider: Collider, transform: Transform) -> (i32, i32, i32, i32) {
    match collider {
        Collider::Circle(circle) => circle_bounds(circle@, transform),
        Collider::Convex(convex) => convex_bounds(convex@.0, transform),
        Collider::Composite(composite) => composite_bounds(composite@, transform, composite@.len() as int),
    }
}

/// Reciprocal moment of inertia (Q40) of a collider for a body of inverse
/// mass `inverse_mass_q24`.
pub open spec fn collider_inverse_inertia(collider: Collider, inverse_mass_q24: u32) -> int {
    match collider {
        Collider::Circle(circle) => div_round_shift_spec(
            2 * inverse_mass_q24 as nat,
            (circle@.1 * circle@.1 + 2 * (circle@.0.0 * circle@.0.0 + circle@.0.1 * circle@.0.1)) as nat,
            48,
        ),
        Collider::Convex(convex) => div_round_shift_spec(
            (6 * inverse_mass_q24 * twice_area_of(convex@.0)) as nat,
            inertia_sum_of(convex@.0) as nat,
            48,
        ),
        Collider::Composite(composite) => {
            let parts = composite@;
            let mass = inverse_mass_q24 * total_mass_weight(parts, parts.len() as int);
            div_round_shift_spec(
                (if mass > u128::MAX { u128::MAX as int } else { mass }) as nat,
                total_weighted_inertia(parts, parts.len() as int) as nat,
                48,
            )
        },
    }
}

impl Clone for Collider {
    fn clone(&self) -> (r: Self)
        ensures
            match *self {
                Collider::Composite(c) => r matches Collider::Composite(d) && d@ == c@,
                _ => r == *self,
            },
    {
        match self {
            Self::Circle(circle) => Self::Circle(*circle),
            Self::Convex(convex) => Self::Convex(*convex),
            Self::Composite(composite) => {
                let copy = composite.clone();
                proof {
                    assert(copy@ == composite@);
                }
                Self::Composite(copy)
            },
        }
    }
}

impl Collider {
    /// Bounding box of the collider placed by `transform`.
    #[inline]
    pub fn aabb(&self, transform: Transform) -> (b: Aabb)
        ensures
            b@ == collider_bounds(*self, transform),
    {
        match self {
            Self::Circle(circle) => circle.aabb(transform),
            Self::Convex(convex) => convex.aabb(transform),
            Self::Composite(composite) => composite.aabb(transform),
        }
    }

    #[inline(always)]
    pub fn as_circle(&self) -> (r: Option<Circle>)
        ensures
            r == (match *self {
                Collider::Circle(circle) => Some(circle),
                _ => None,
            }),
    {
        match self {
            Self::Circle(circle) => Some(*circle),
            Self::Convex(_) | Self::Composite(_) => None,
        }
    }

    #[inline(always)]
    pub fn as_convex(&self) -> (r: Option<Convex>)
        ensures
            r == (match *self {
                Collider::Convex(convex) => Some(convex),
                _ => None,
            }),
    {
        match self {
            Self::Circle(_) | Self::Composite(_) => None,
            Self::Convex(convex) => Some(*convex),
        }
    }

    #[inline(always)]
    pub fn as_composite(&self) -> (r: Option<&CompositeCollider>)
        ensures
            r == (match *self {
                Collider::Composite(composite) => Some(&composite),
                _ => None,
            }),
    {
        match self {
            Self::Circle(_) | Self::Convex(_) => None,
            Self::Composite(composite) => Some(composite),
        }
    }

    /// Reciprocal moment of inertia about the collider origin as unsigned Q40.
    ///
    /// `inverse_mass_q24` is used instead of the source mass so that linear
    /// and angular solver weights share the same low-mass saturation.
    pub fn inverse_inertia_q40(&self, inverse_mass_q24: u32) -> (i: u64)
        ensures
            i == collider_inverse_inertia(*self, inverse_mass_q24),
    {
        match self {
            Self::Circle(circle) => circle.inverse_inertia_q40(inverse_mass_q24),
            Self::Convex(convex) => convex.inverse_inertia_q40(inverse_mass_q24),
            Self::Composite(composite) => composite.inverse_inertia_q40(inverse_mass_q24),
        }
    }
}

impl From<Circle> for Collider {
    #[inline(always)]
    fn from(circle: Circle) -> (r: Self) {
        Self::Circle(circle)
    }
}

impl vstd::std_specs::convert::FromSpecImpl<Circle> for Collider {
    open spec fn obeys_from_spec() -> bool {
        true
    }

    open spec fn from_spec(circle: Circle) -> Self {
        Self::Circle(circle)
    }
}

impl From<Convex> for Collider {
    #[inline(always)]
    fn from(convex: Convex) -> (r: Self) {
        Self::Convex(convex)
    }
}

impl vstd::std_specs::convert::FromSpecImpl<Convex> for Collider {
    open spec fn obeys_from_spec() -> bool {
        true
    }

    open spec fn from_spec(convex: Convex) -> Self {
        Self::Convex(convex)
    }
}

impl From<SimpleCollider> for Collider {
    #[inline(always)]
    fn from(collider: SimpleCollider) -> (r: Self) {
        match collider {
            SimpleCollider::Circle(circle) => Self::Circle(circle),
            SimpleCollider::Convex(convex) => Self::Convex(convex),
        }
    }
}

impl vstd::std_specs::convert::FromSpecImpl<SimpleCollider> for Collider {
    open spec fn obeys_from_spec() -> bool {
        true
    }

    open spec fn from_spec(collider: SimpleCollider) -> Self {
        match collider {
            SimpleCollider::Circle(circle) => Self::Circle(circle),
            SimpleCollider::Convex(convex) => Self::Convex(convex),
        }
    }
}

impl From<CompositeCollider> for Collider {
    #[inline(always)]
    fn from(composite: CompositeCollider) -> (r: Self) {
        Self::Composite(composite)
    }
}

impl vstd::std_specs::convert::FromSpecImpl<CompositeCollider> for Collider {
    open spec fn obeys_from_spec() -> bool {
        true
    }

    open spec fn from_spec(composite: CompositeCollider) -> Self {
        Self::Composite(composite)
    }
}

} // verus!
