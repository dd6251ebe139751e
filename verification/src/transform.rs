use vstd::prelude::*;

use crate::geometry::point::{GeometryPoint, MAX_POINT, MIN_POINT, point_in_range};
use crate::ops::clamp_spec;
use crate::quantity::angle::Angle;
use crate::quantity::angular_velocity::AngularVelocity;
use crate::quantity::cordic::sin_cos_spec;
use crate::quantity::linear_velocity::LinearVelocity;
use crate::quantity::position::{
    MAX_POSITION, Position, clamp_position, lemma_rotation_within_radius, rotated_x, rotated_y,
};
use crate::quantity::angle::wrap_u32;

verus! {

/// The body-local point lies within the collider radius limit, so its
/// transformed image fits the geometry range exactly.
pub open spec fn within_collider_radius(local: (i32, i32)) -> bool {
    local.0 as int * local.0 as int + local.1 as int * local.1 as int <= MAX_POSITION as int * MAX_POSITION as int
}

/// Image of a body-local point under `transform`, before any saturation.
pub open spec fn transform_point(transform: Transform, local: (int, int)) -> (int, int) {
    let sc = sin_cos_spec(transform.angle@);
    (transform.position@.0 + rotated_x(local.0, local.1, sc), transform.position@.1 + rotated_y(local.0, local.1, sc))
}

/// Position and orientation of a body in world space.
///
/// Rotation coefficients are derived on demand from the angle, so the
/// transform holds only authoritative rollback state.
#[derive(Debug, Clone, Copy, PartialEq, Eq, Hash, Default, Structural)]
pub struct Transform {
    pub position: Position,
    pub angle: Angle,
}

impl Transform {
    pub fn identity() -> (t: Self)
        ensures
            t.position@ == (0i32, 0i32),
            t.angle@ == 0,
    {
        Self { position: Position::zero(), angle: Angle::zero() }
    }

    #[inline(always)]
    pub fn new(position: Position, angle: Angle) -> (t: Self)
        ensures
            t.position == position,
            t.angle == angle,
    {
        Self { position, angle }
    }

    /// Transforms a Q16 point into the bounded world-position domain.
    ///
    /// Rotation uses integer CORDIC coefficients, so the result is identical
    /// on every target. Translation saturates at the world boundary because
    /// an arbitrary local point has no collider-radius bound.
    #[inline]
    pub fn apply(self, local: Position) -> (p: Position)
        ensures
            p@.0 as int == clamp_position(self.position@.0 + rotated_x(local@.0 as int, local@.1 as int, sin_cos_spec(self.angle@))),
            p@.1 as int == clamp_position(self.position@.1 + rotated_y(local@.0 as int, local@.1 as int, sin_cos_spec(self.angle@))),
    {
        self.position.add_point(local.rotate(self.angle))
    }

    /// Transforms a collider-local point into the geometry domain. Points
    /// within the collider radius limit need no saturation.
    #[inline]
    pub fn apply_geometry(self, local: Position) -> (g: GeometryPoint)
        requires
            within_collider_radius(local@),
        ensures
            g@.0 as int == self.position@.0 + rotated_x(local@.0 as int, local@.1 as int, sin_cos_spec(self.angle@)),
            g@.1 as int == self.position@.1 + rotated_y(local@.0 as int, local@.1 as int, sin_cos_spec(self.angle@)),
    {
        let rotated = local.rotate(self.angle);
        let sc = self.angle.sin_cos_q30();
        let l = local.raw();
        let p = self.position.raw();
        proof {
            lemma_rotation_within_radius(l[0] as int, l[1] as int, sc[0] as int, sc[1] as int, MAX_POSITION as int);
        }
        self.position.add_geometry_unchecked(rotated)
    }

    /// Composes a child-local transform with this parent transform.
    #[inline]
    pub fn compose(self, local: Self) -> (t: Self)
        ensures
            t.position@.0 as int == clamp_position(self.position@.0 + rotated_x(local.position@.0 as int, local.position@.1 as int, sin_cos_spec(self.angle@))),
            t.position@.1 as int == clamp_position(self.position@.1 + rotated_y(local.position@.0 as int, local.position@.1 as int, sin_cos_spec(self.angle@))),
            t.angle@ as int == wrap_u32(self.angle@ as int + local.angle@ as int),
    {
        Self {
            position: self.apply(local.position),
            angle: self.angle.wrapping_add_angle(local.angle),
        }
    }

    /// Advances the transform by one fixed 64 Hz tick.
    #[inline]
    pub fn advance(self, linear_velocity: LinearVelocity, angular_velocity: AngularVelocity) -> (t: Self)
        ensures
            t.position == self.position.spec_advance(linear_velocity),
            t.angle == self.angle.spec_advance(angular_velocity),
            t.position@.0 as int == clamp_position(self.position@.0 as int + linear_velocity@.0 as int),
            t.position@.1 as int == clamp_position(self.position@.1 as int + linear_velocity@.1 as int),
            t.angle@ as int == wrap_u32(self.angle@ as int + angular_velocity.spec_angle_delta_per_tick()),
    {
        Self {
            position: self.position.advance(linear_velocity),
            angle: self.angle.advance(angular_velocity),
        }
    }
}

impl Transform {
    /// Transforms an arbitrary local point into the geometry domain,
    /// saturating each component at the geometry range.
    #[inline]
    pub fn apply_geometry_saturating(self, local: Position) -> (g: GeometryPoint)
        ensures
            g@.0 as int == clamp_spec(transform_point(self, (local@.0 as int, local@.1 as int)).0, MIN_POINT as int, MAX_POINT as int),
            g@.1 as int == clamp_spec(transform_point(self, (local@.0 as int, local@.1 as int)).1, MIN_POINT as int, MAX_POINT as int),
    {
        let rotated = local.rotate(self.angle).raw();
        let p = self.position.raw();
        GeometryPoint::from_i64_clamped(p[0] as i64 + rotated[0] as i64, p[1] as i64 + rotated[1] as i64)
    }
}

} // verus!
