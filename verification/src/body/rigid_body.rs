use vstd::prelude::*;

use crate::collider::Collider;
use crate::quantity::mass::{Mass, inverse_mass_q24_spec};
use super::id::BodyId;
use super::material::Material;
use super::state::BodyState;

verus! {

/// The same collision geometry: equal simple colliders, or composites with
/// the same parts.
pub open spec fn same_collider(a: Collider, b: Collider) -> bool {
    match (a, b) {
        (Collider::Composite(x), Collider::Composite(y)) => x@ == y@,
        _ => a == b,
    }
}

/// Dynamic rigid body with one collider.
#[derive(Debug, PartialEq, Eq, Hash)]
pub struct Body {
    pub(crate) id: BodyId,
    pub(crate) collider: Collider,
    pub(crate) material: Material,
    pub(crate) inverse_mass_q24: u32,
    pub(crate) state: BodyState,
}

impl View for Body {
    /// `(id, collider, material, inverse mass Q24, state)`.
    type V = (BodyId, Collider, Material, u32, BodyState);

    closed spec fn view(&self) -> (BodyId, Collider, Material, u32, BodyState) {
        (self.id, self.collider, self.material, self.inverse_mass_q24, self.state)
    }
}

impl Clone for Body {
    fn clone(&self) -> (r: Self)
        ensures
            r@.0 == self@.0,
            same_collider(r@.1, self@.1),
            r@.2 == self@.2,
            r@.3 == self@.3,
            r@.4 == self@.4,
    {
        Self {
            id: self.id,
            collider: self.collider.clone(),
            material: self.material,
            inverse_mass_q24: self.inverse_mass_q24,
            state: self.state,
        }
    }
}

impl Body {
    /// A dynamic body; its reciprocal mass is derived once, rounded to Q24.
    #[inline(always)]
    pub fn dynamic(id: BodyId, collider: Collider, mass: Mass, material: Material, state: BodyState) -> (b: Self)
        ensures
            b@.0 == id,
            b@.1 == collider,
            b@.2 == material,
            b@.3 as int == inverse_mass_q24_spec(mass@ as int),
            b@.4 == state,
    {
        Self { id, collider, material, inverse_mass_q24: mass.inverse_q24(), state }
    }

    #[inline(always)]
    pub fn id(&self) -> (id: BodyId)
        ensures
            id == self@.0,
    {
        self.id
    }

    #[inline(always)]
    pub fn collider(&self) -> (c: Collider)
        ensures
            same_collider(c, self@.1),
    {
        self.collider.clone()
    }

    /// The collider itself, without copying a composite's parts.
    #[inline(always)]
    pub(crate) fn collider_ref(&self) -> (c: &Collider)
        ensures
            *c == self@.1,
    {
        &self.collider
    }

    #[inline(always)]
    pub fn material(&self) -> (m: Material)
        ensures
            m == self@.2,
    {
        self.material
    }

    #[inline(always)]
    pub fn state(&self) -> (s: &BodyState)
        ensures
            *s == self@.4,
    {
        &self.state
    }

    #[inline(always)]
    pub fn state_mut(&mut self) -> (s: &mut BodyState)
        ensures
            *s == old(self)@.4,
            final(self)@ == (old(self)@.0, old(self)@.1, old(self)@.2, old(self)@.3, *final(s)),
    {
        &mut self.state
    }

    /// Reciprocal mass used by the solver: zero while the body sleeps.
    #[inline(always)]
    pub fn inverse_mass_q24(&self) -> (i: u32)
        ensures
            i == if self@.4@.4 { 0 } else { self@.3 },
    {
        if self.state.is_sleeping() {
            0
        } else {
            self.inverse_mass_q24
        }
    }
}

} // verus!
