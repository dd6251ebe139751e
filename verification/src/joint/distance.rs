use vstd::prelude::*;

use crate::body::BodyId;
use crate::geometry::point::{GeometryPoint, MAX_POINT, MIN_POINT};
use crate::ops::clamp_spec;
use crate::quantity::force::Force;
use crate::quantity::length::{Length, MAX_LENGTH};
use crate::quantity::position::Position;
use crate::transform::{Transform, transform_point};
use super::{
    DEFAULT_JOINT_RESPONSE_Q16, MAX_JOINT_RESPONSE_Q16, bounded_response, canonical_endpoints,
    distance_between, inverse_transform, inverse_transform_point, length_between,
};

verus! {

/// A bilateral scalar constraint that keeps two body anchors at a fixed
/// distance.
///
/// Endpoints are stored in ascending body-id order, which fixes the solver
/// axis from anchor A to anchor B independently of insertion and
/// constructor argument order.
#[derive(Debug, Clone, Copy, PartialEq, Eq, Hash, Structural)]
pub struct DistanceJoint {
    pub(crate) body_a: BodyId,
    pub(crate) body_b: BodyId,
    pub(crate) local_anchor_a: Position,
    pub(crate) local_anchor_b: Position,
    pub(crate) length: Length,
    pub(crate) max_force: Force,
    pub(crate) response_q16: u32,
}

impl View for DistanceJoint {
    /// `(body A, body B, anchor A, anchor B, length, maximum force, response Q16)`.
    type V = (BodyId, BodyId, Position, Position, Length, Force, u32);

    closed spec fn view(&self) -> (BodyId, BodyId, Position, Position, Length, Force, u32) {
        (self.body_a, self.body_b, self.local_anchor_a, self.local_anchor_b, self.length, self.max_force, self.response_q16)
    }
}

/// The world point of a local anchor, saturated to the geometry range.
pub open spec fn anchor_in_world(transform: Transform, anchor: Position) -> (int, int) {
    let p = transform_point(transform, (anchor@.0 as int, anchor@.1 as int));
    (clamp_spec(p.0, MIN_POINT as int, MAX_POINT as int), clamp_spec(p.1, MIN_POINT as int, MAX_POINT as int))
}

impl DistanceJoint {
    pub const DEFAULT_RESPONSE_Q16: u32 = DEFAULT_JOINT_RESPONSE_Q16;

    #[verifier::type_invariant]
    closed spec fn well_formed(self) -> bool {
        &&& self.body_a@ <= self.body_b@
        &&& self.response_q16 <= MAX_JOINT_RESPONSE_Q16
    }

    /// A joint with endpoints stored in ascending body-id order.
    #[inline(always)]
    pub fn new(
        body_a: BodyId,
        local_anchor_a: Position,
        body_b: BodyId,
        local_anchor_b: Position,
        length: Length,
        max_force: Force,
    ) -> (j: Self)
        ensures
            (j@.0, j@.1, j@.2, j@.3) == canonical_endpoints(body_a, local_anchor_a, body_b, local_anchor_b),
            j@.4 == length,
            j@.5 == max_force,
            j@.6 == DEFAULT_JOINT_RESPONSE_Q16,
    {
        if body_a.raw() <= body_b.raw() {
            Self {
                body_a,
                body_b,
                local_anchor_a,
                local_anchor_b,
                length,
                max_force,
                response_q16: DEFAULT_JOINT_RESPONSE_Q16,
            }
        } else {
            Self {
                body_a: body_b,
                body_b: body_a,
                local_anchor_a: local_anchor_b,
                local_anchor_b: local_anchor_a,
                length,
                max_force,
                response_q16: DEFAULT_JOINT_RESPONSE_Q16,
            }
        }
    }

    /// A joint whose local anchors are derived from two world-space points.
    #[inline]
    pub fn at_world_points(
        body_a: BodyId,
        transform_a: Transform,
        world_anchor_a: Position,
        body_b: BodyId,
        transform_b: Transform,
        world_anchor_b: Position,
        length: Length,
        max_force: Force,
    ) -> (j: Self)
        ensures
            j@.0 == (if body_a@ <= body_b@ { body_a } else { body_b }),
            j@.1 == (if body_a@ <= body_b@ { body_b } else { body_a }),
            (j@.2@.0 as int, j@.2@.1 as int) == (if body_a@ <= body_b@ {
                inverse_transform(transform_a, world_anchor_a@)
            } else {
                inverse_transform(transform_b, world_anchor_b@)
            }),
            (j@.3@.0 as int, j@.3@.1 as int) == (if body_a@ <= body_b@ {
                inverse_transform(transform_b, world_anchor_b@)
            } else {
                inverse_transform(transform_a, world_anchor_a@)
            }),
            j@.4 == length,
            j@.5 == max_force,
            j@.6 == DEFAULT_JOINT_RESPONSE_Q16,
    {
        Self::new(
            body_a,
            inverse_transform_point(transform_a, world_anchor_a),
            body_b,
            inverse_transform_point(transform_b, world_anchor_b),
            length,
            max_force,
        )
    }

    /// A joint whose local anchors are derived from two world-space points
    /// and whose length is their current floor distance; `None` when that
    /// distance exceeds the length range.
    #[inline]
    pub fn between_world_points(
        body_a: BodyId,
        transform_a: Transform,
        world_anchor_a: Position,
        body_b: BodyId,
        transform_b: Transform,
        world_anchor_b: Position,
        max_force: Force,
    ) -> (j: Option<Self>)
        ensures
            j is Some <==> distance_between(world_anchor_a@, world_anchor_b@) <= MAX_LENGTH,
            j matches Some(j) ==> {
                &&& j@.0 == (if body_a@ <= body_b@ { body_a } else { body_b })
                &&& j@.1 == (if body_a@ <= body_b@ { body_b } else { body_a })
                &&& (j@.2@.0 as int, j@.2@.1 as int) == (if body_a@ <= body_b@ {
                    inverse_transform(transform_a, world_anchor_a@)
                } else {
                    inverse_transform(transform_b, world_anchor_b@)
                })
                &&& (j@.3@.0 as int, j@.3@.1 as int) == (if body_a@ <= body_b@ {
                    inverse_transform(transform_b, world_anchor_b@)
                } else {
                    inverse_transform(transform_a, world_anchor_a@)
                })
                &&& j@.4@ == distance_between(world_anchor_a@, world_anchor_b@)
                &&& j@.5 == max_force
                &&& j@.6 == DEFAULT_JOINT_RESPONSE_Q16
            },
    {
        let length = match length_between(world_anchor_a, world_anchor_b) {
            Some(l) => l,
            None => {
                return None;
            },
        };
        Some(Self::at_world_points(body_a, transform_a, world_anchor_a, body_b, transform_b, world_anchor_b, length, max_force))
    }

    #[inline(always)]
    pub fn body_a(self) -> (b: BodyId)
        ensures
            b == self@.0,
            b@ <= self@.1@,
    {
        proof {
            use_type_invariant(&self);
        }
        self.body_a
    }

    #[inline(always)]
    pub fn body_b(self) -> (b: BodyId)
        ensures
            b == self@.1,
    {
        self.body_b
    }

    #[inline(always)]
    pub fn local_anchor_a(self) -> (p: Position)
        ensures
            p == self@.2,
    {
        self.local_anchor_a
    }

    #[inline(always)]
    pub fn local_anchor_b(self) -> (p: Position)
        ensures
            p == self@.3,
    {
        self.local_anchor_b
    }

    #[inline(always)]
    pub fn length(self) -> (l: Length)
        ensures
            l == self@.4,
    {
        self.length
    }

    #[inline(always)]
    pub fn max_force(self) -> (f: Force)
        ensures
            f == self@.5,
    {
        self.max_force
    }

    /// Fraction of the positional error corrected per tick, unsigned Q16;
    /// never above one.
    #[inline(always)]
    pub fn response_raw(self) -> (r: u32)
        ensures
            r == self@.6,
            r <= MAX_JOINT_RESPONSE_Q16,
    {
        proof {
            use_type_invariant(&self);
        }
        self.response_q16
    }

    #[inline(always)]
    pub fn set_length(&mut self, length: Length)
        ensures
            final(self)@ == (old(self)@.0, old(self)@.1, old(self)@.2, old(self)@.3, length, old(self)@.5, old(self)@.6),
    {
        proof {
            use_type_invariant(&*self);
        }
        self.length = length;
    }

    #[inline(always)]
    pub fn set_max_force(&mut self, max_force: Force)
        ensures
            final(self)@ == (old(self)@.0, old(self)@.1, old(self)@.2, old(self)@.3, old(self)@.4, max_force, old(self)@.6),
    {
        proof {
            use_type_invariant(&*self);
        }
        self.max_force = max_force;
    }

    /// Sets the response in unsigned Q16; values above one are clamped to one.
    #[inline(always)]
    pub fn set_response_raw(&mut self, response_q16: u32)
        ensures
            final(self)@ == (old(self)@.0, old(self)@.1, old(self)@.2, old(self)@.3, old(self)@.4, old(self)@.5,
                bounded_response(response_q16)),
    {
        proof {
            use_type_invariant(&*self);
        }
        self.response_q16 = if response_q16 > MAX_JOINT_RESPONSE_Q16 { MAX_JOINT_RESPONSE_Q16 } else { response_q16 };
    }

    /// World-space position of anchor A on a body placed by `transform`.
    #[inline(always)]
    pub fn world_anchor_a(self, transform: Transform) -> (g: GeometryPoint)
        ensures
            (g@.0 as int, g@.1 as int) == anchor_in_world(transform, self@.2),
    {
        transform.apply_geometry_saturating(self.local_anchor_a)
    }

    /// World-space position of anchor B on a body placed by `transform`.
    #[inline(always)]
    pub fn world_anchor_b(self, transform: Transform) -> (g: GeometryPoint)
        ensures
            (g@.0 as int, g@.1 as int) == anchor_in_world(transform, self@.3),
    {
        transform.apply_geometry_saturating(self.local_anchor_b)
    }
}

} // verus!
