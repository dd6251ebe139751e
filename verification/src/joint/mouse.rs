use vstd::prelude::*;

use crate::body::BodyId;
use crate::geometry::point::GeometryPoint;
use crate::quantity::force::Force;
use crate::quantity::position::Position;
use crate::transform::Transform;
use super::distance::anchor_in_world;
use super::{DEFAULT_JOINT_RESPONSE_Q16, MAX_JOINT_RESPONSE_Q16, bounded_response, inverse_transform, inverse_transform_point};

verus! {

/// A spring-like constraint between a point on a dynamic body and a
/// world-space target, intended for pointer-driven dragging.
///
/// The joint stores only deterministic fixed-point state; the target may be
/// updated before every tick without rebuilding the joint.
#[derive(Debug, Clone, Copy, PartialEq, Eq, Hash, Structural)]
pub struct MouseJoint {
    pub(crate) body: BodyId,
    pub(crate) local_anchor: Position,
    pub(crate) target: Position,
    pub(crate) max_force: Force,
    pub(crate) response_q16: u32,
}

impl View for MouseJoint {
    /// `(body, local anchor, target, maximum force, response Q16)`.
    type V = (BodyId, Position, Position, Force, u32);

    closed spec fn view(&self) -> (BodyId, Position, Position, Force, u32) {
        (self.body, self.local_anchor, self.target, self.max_force, self.response_q16)
    }
}

impl MouseJoint {
    /// The anchor closes one quarter of the remaining distance per tick when
    /// the force limit does not bind.
    pub const DEFAULT_RESPONSE_Q16: u32 = DEFAULT_JOINT_RESPONSE_Q16;

    #[verifier::type_invariant]
    closed spec fn response_bounded(self) -> bool {
        self.response_q16 <= MAX_JOINT_RESPONSE_Q16
    }

    #[inline(always)]
    pub fn new(body: BodyId, local_anchor: Position, target: Position, max_force: Force) -> (j: Self)
        ensures
            j@ == (body, local_anchor, target, max_force, DEFAULT_JOINT_RESPONSE_Q16),
    {
        Self { body, local_anchor, target, max_force, response_q16: DEFAULT_JOINT_RESPONSE_Q16 }
    }

    /// A joint whose local anchor is derived from the selected world-space
    /// point, which is also the initial target.
    #[inline]
    pub fn at_world_point(body: BodyId, body_transform: Transform, world_anchor: Position, max_force: Force) -> (j: Self)
        ensures
            j@.0 == body,
            (j@.1@.0 as int, j@.1@.1 as int) == inverse_transform(body_transform, world_anchor@),
            j@.2 == world_anchor,
            j@.3 == max_force,
            j@.4 == DEFAULT_JOINT_RESPONSE_Q16,
    {
        Self::new(body, inverse_transform_point(body_transform, world_anchor), world_anchor, max_force)
    }

    #[inline(always)]
    pub fn body(self) -> (b: BodyId)
        ensures
            b == self@.0,
    {
        self.body
    }

    #[inline(always)]
    pub fn local_anchor(self) -> (p: Position)
        ensures
            p == self@.1,
    {
        self.local_anchor
    }

    #[inline(always)]
    pub fn target(self) -> (p: Position)
        ensures
            p == self@.2,
    {
        self.target
    }

    #[inline(always)]
    pub fn max_force(self) -> (f: Force)
        ensures
            f == self@.3,
    {
        self.max_force
    }

    /// Fraction of the positional error corrected per tick, unsigned Q16;
    /// never above one.
    #[inline(always)]
    pub fn response_raw(self) -> (r: u32)
        ensures
            r == self@.4,
            r <= MAX_JOINT_RESPONSE_Q16,
    {
        proof {
            use_type_invariant(&self);
        }
        self.response_q16
    }

    /// Sets the response in unsigned Q16; values above one are clamped to one.
    #[inline(always)]
    pub fn set_response_raw(&mut self, response_q16: u32)
        ensures
            final(self)@ == (old(self)@.0, old(self)@.1, old(self)@.2, old(self)@.3, bounded_response(response_q16)),
    {
        proof {
            use_type_invariant(&*self);
        }
        self.response_q16 = if response_q16 > MAX_JOINT_RESPONSE_Q16 { MAX_JOINT_RESPONSE_Q16 } else { response_q16 };
    }

    #[inline(always)]
    pub fn set_target(&mut self, target: Position)
        ensures
            final(self)@ == (old(self)@.0, old(self)@.1, target, old(self)@.3, old(self)@.4),
    {
        proof {
            use_type_invariant(&*self);
        }
        self.target = target;
    }

    #[inline(always)]
    pub fn set_max_force(&mut self, max_force: Force)
        ensures
            final(self)@ == (old(self)@.0, old(self)@.1, old(self)@.2, max_force, old(self)@.4),
    {
        proof {
            use_type_invariant(&*self);
        }
        self.max_force = max_force;
    }

    /// World-space position of the body anchor for a body placed by
    /// `body_transform`, saturated to the geometry range.
    #[inline(always)]
    pub fn world_anchor(self, body_transform: Transform) -> (g: GeometryPoint)
        ensures
            (g@.0 as int, g@.1 as int) == anchor_in_world(body_transform, self@.1),
    {
        body_transform.apply_geometry_saturating(self.local_anchor)
    }
}

} // verus!
