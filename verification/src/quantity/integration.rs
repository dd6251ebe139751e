use vstd::prelude::*;

use super::{Angle, AngularAcceleration, AngularVelocity, LinearAcceleration, LinearVelocity, Position};
use super::angle::wrap_u32;
use super::angular_velocity::{MAX_ANGULAR_VELOCITY, MIN_ANGULAR_VELOCITY};
use super::linear_velocity::clamp_velocity;
use super::position::clamp_position;
use crate::ops::clamp_spec;

verus! {

/// Advances velocity and then position by one fixed 64 Hz tick, saturating
/// both at their gameplay limits.
#[inline]
pub fn integrate(
    position: Position,
    velocity: LinearVelocity,
    acceleration: LinearAcceleration,
) -> (r: (Position, LinearVelocity))
    ensures
        r.1 == velocity.spec_advance(acceleration),
        r.0 == position.spec_advance(r.1),
        r.1@.0 as int == clamp_velocity(velocity@.0 as int + acceleration@.0 as int),
        r.1@.1 as int == clamp_velocity(velocity@.1 as int + acceleration@.1 as int),
        r.0@.0 as int == clamp_position(position@.0 as int + r.1@.0 as int),
        r.0@.1 as int == clamp_position(position@.1 as int + r.1@.1 as int),
{
    let velocity = velocity.advance(acceleration);
    let position = position.advance(velocity);
    (position, velocity)
}

/// Advances angular velocity and then angle by one fixed 64 Hz tick,
/// saturating angular velocity at its gameplay limit.
#[inline]
pub fn integrate_angular(
    angle: Angle,
    velocity: AngularVelocity,
    acceleration: AngularAcceleration,
) -> (r: (Angle, AngularVelocity))
    ensures
        r.1 == velocity.spec_advance(acceleration),
        r.0 == angle.spec_advance(r.1),
        r.1@ as int == clamp_spec(
            velocity@ as int + AngularVelocity::spec_velocity_change(acceleration),
            MIN_ANGULAR_VELOCITY as int,
            MAX_ANGULAR_VELOCITY as int,
        ),
        r.0@ as int == wrap_u32(angle@ as int + r.1.spec_angle_delta_per_tick()),
{
    let velocity = velocity.advance(acceleration);
    let angle = angle.advance(velocity);
    (angle, velocity)
}

} // verus!
