use vstd::prelude::*;

use crate::body::BodyId;
use crate::geometry::point::GeometryPoint;
use crate::geometry::unit_vector::UnitVector;
use crate::quantity::length::Length;

verus! {

/// The part of a collider that a contact touches.
#[derive(Debug, Clone, Copy, PartialEq, Eq, Hash, PartialOrd, Ord, Structural)]
pub enum ColliderFeature {
    Circle,
    ConvexVertex(u8),
    ConvexEdge(u8),
}

/// One contact between two bodies. `normal` points from `body_a` toward
/// `body_b`; the solver response applied to `body_a` therefore acts in the
/// opposite direction.
#[derive(Debug, Clone, Copy, PartialEq, Eq)]
pub struct Contact {
    pub body_a: BodyId,
    pub body_b: BodyId,
    pub point: GeometryPoint,
    pub normal: UnitVector,
    pub penetration: Length,
    pub feature_a: ColliderFeature,
    pub feature_b: ColliderFeature,
    pub part_a: Option<usize>,
    pub part_b: Option<usize>,
}

/// `c` is `of` seen from the other body: bodies, features and parts swap,
/// the normal is reversed, point and penetration stay.
pub open spec fn is_flip_of(c: Contact, of: Contact) -> bool {
    &&& c.body_a == of.body_b
    &&& c.body_b == of.body_a
    &&& c.point == of.point
    &&& c.normal@.0 as int == -of.normal@.0
    &&& c.normal@.1 as int == -of.normal@.1
    &&& c.penetration == of.penetration
    &&& c.feature_a == of.feature_b
    &&& c.feature_b == of.feature_a
    &&& c.part_a == of.part_b
    &&& c.part_b == of.part_a
}

/// Seeing a contact from the other body twice gives the contact back.
pub proof fn lemma_flip_twice_restores(contact: Contact, once: Contact, twice: Contact)
    requires
        is_flip_of(once, contact),
        is_flip_of(twice, once),
    ensures
        twice == contact,
{
    UnitVector::lemma_view_injective(twice.normal, contact.normal);
}

impl Contact {
    /// The same contact seen from the other body.
    #[inline(always)]
    pub fn flipped(self) -> (c: Self)
        ensures
            is_flip_of(c, self),
    {
        Self {
            body_a: self.body_b,
            body_b: self.body_a,
            point: self.point,
            normal: self.normal.neg(),
            penetration: self.penetration,
            feature_a: self.feature_b,
            feature_b: self.feature_a,
            part_a: self.part_b,
            part_b: self.part_a,
        }
    }

    /// The contact attributed to the given composite parts.
    #[inline(always)]
    pub fn with_parts(self, part_a: Option<usize>, part_b: Option<usize>) -> (c: Self)
        ensures
            c == (Contact { part_a, part_b, ..self }),
    {
        Self { part_a, part_b, ..self }
    }
}

/// Geometry of a contact: `(point, normal, penetration, feature on A,
/// feature on B)`.
pub type ContactData = ((int, int), (int, int), int, ColliderFeature, ColliderFeature);

/// `c` joins bodies `a` and `b` with geometry `d`, outside any composite part.
pub open spec fn contact_matches(c: Contact, a: BodyId, b: BodyId, d: ContactData) -> bool {
    &&& c.body_a == a
    &&& c.body_b == b
    &&& (c.point@.0 as int, c.point@.1 as int) == d.0
    &&& (c.normal@.0 as int, c.normal@.1 as int) == d.1
    &&& c.penetration@ == d.2
    &&& c.feature_a == d.3
    &&& c.feature_b == d.4
    &&& c.part_a is None
    &&& c.part_b is None
}

/// Contact manifold produced by one collider pair: one point for curved
/// contacts, both ends of the clipped overlap for two polygon faces.
#[derive(Debug, Clone, Copy, PartialEq, Eq)]
pub struct ContactManifold {
    pub first: Contact,
    pub second: Option<Contact>,
}

/// Contacts of a manifold, in order.
pub open spec fn manifold_contacts(m: ContactManifold) -> Seq<Contact> {
    match m.second {
        Some(second) => seq![m.first, second],
        None => seq![m.first],
    }
}

impl ContactManifold {
    #[inline(always)]
    pub fn one(contact: Contact) -> (m: Self)
        ensures
            m.first == contact,
            m.second is None,
    {
        Self { first: contact, second: None }
    }

    #[inline(always)]
    pub fn two(first: Contact, second: Contact) -> (m: Self)
        ensures
            m.first == first,
            m.second == Some(second),
    {
        Self { first, second: Some(second) }
    }

    #[inline(always)]
    pub fn first(self) -> (c: Contact)
        ensures
            c == self.first,
    {
        self.first
    }

    /// The contacts in order: one or two.
    #[inline(always)]
    pub fn contacts(self) -> (v: Vec<Contact>)
        ensures
            v@ == manifold_contacts(self),
    {
        let mut out: Vec<Contact> = Vec::new();
        out.push(self.first);
        if let Some(second) = self.second {
            out.push(second);
        }
        assert(out@ =~= manifold_contacts(self));
        out
    }

    /// Every contact attributed to the given composite parts.
    #[inline(always)]
    pub fn with_parts(self, part_a: Option<usize>, part_b: Option<usize>) -> (m: Self)
        ensures
            m.first == (Contact { part_a, part_b, ..self.first }),
            m.second == (match self.second {
                Some(c) => Some(Contact { part_a, part_b, ..c }),
                None => None,
            }),
    {
        let second = match self.second {
            Some(contact) => Some(contact.with_parts(part_a, part_b)),
            None => None,
        };
        Self { first: self.first.with_parts(part_a, part_b), second }
    }
}

} // verus!
