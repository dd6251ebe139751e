use vstd::prelude::*;

use crate::collider::{Collider, collider_bounds};
use crate::geometry::aabb::Aabb;
use crate::transform::Transform;
use super::id::BodyId;
use super::material::Material;
use super::rigid_body::same_collider;

verus! {

/// Immutable collision geometry that carries no dynamic simulation state.
/// Its bounding box is computed once.
#[derive(Debug, PartialEq, Eq)]
pub struct StaticBody {
    pub(crate) id: BodyId,
    pub(crate) transform: Transform,
    pub(crate) collider: Collider,
    pub(crate) material: Material,
    pub(crate) aabb: Aabb,
}

impl View for StaticBody {
    /// `(id, transform, collider, material)`.
    type V = (BodyId, Transform, Collider, Material);

    closed spec fn view(&self) -> (BodyId, Transform, Collider, Material) {
        (self.id, self.transform, self.collider, self.material)
    }
}

impl Clone for StaticBody {
    fn clone(&self) -> (r: Self)
        ensures
            r@.0 == self@.0,
            r@.1 == self@.1,
            same_collider(r@.2, self@.2),
            r@.3 == self@.3,
    {
        proof {
            use_type_invariant(self);
        }
        let collider = self.collider.clone();
        proof {
            lemma_same_collider_bounds(collider, self.collider, self.transform);
        }
        Self { id: self.id, transform: self.transform, collider, material: self.material, aabb: self.aabb }
    }
}

/// Colliders with the same geometry have the same bounds.
pub proof fn lemma_same_collider_bounds(a: Collider, b: Collider, transform: Transform)
    requires
        same_collider(a, b),
    ensures
        collider_bounds(a, transform) == collider_bounds(b, transform),
{
}

impl StaticBody {
    #[verifier::type_invariant]
    closed spec fn cached_bounds(self) -> bool {
        self.aabb@ == collider_bounds(self.collider, self.transform)
    }

    #[inline(always)]
    pub fn new(id: BodyId, transform: Transform, collider: Collider, material: Material) -> (b: Self)
        ensures
            b@ == (id, transform, collider, material),
    {
        let aabb = collider.aabb(transform);
        Self { id, transform, collider, material, aabb }
    }

    #[inline(always)]
    pub fn id(&self) -> (id: BodyId)
        ensures
            id == self@.0,
    {
        self.id
    }

    #[inline(always)]
    pub fn transform(&self) -> (t: Transform)
        ensures
            t == self@.1,
    {
        self.transform
    }

    #[inline(always)]
    pub fn collider(&self) -> (c: &Collider)
        ensures
            *c == self@.2,
    {
        &self.collider
    }

    #[inline(always)]
    pub fn material(&self) -> (m: Material)
        ensures
            m == self@.3,
    {
        self.material
    }

    /// The cached bounding box of the placed collider.
    #[inline(always)]
    pub fn aabb(&self) -> (b: Aabb)
        ensures
            b@ == collider_bounds(self@.2, self@.1),
    {
        proof {
            use_type_invariant(self);
        }
        self.aabb
    }
}

} // verus!
