use vstd::prelude::*;

use crate::body::BodyId;
use crate::collider::Circle;
use crate::geometry::point::{GeometryPoint, MAX_POINT, MIN_POINT};
use crate::geometry::unit_vector::{UnitVector, normalized_component};
use crate::ops::{clamp_spec, is_isqrt, isqrt_spec, isqrt_u64, round_shift_spec};
use crate::quantity::length::Length;
use crate::quantity::position::{MAX_POSITION, Position};
use crate::transform::{Transform, transform_point};
use super::contact::{ColliderFeature, Contact};

verus! {

/// Unit normal (Q30) along `delta`; `+X` when `delta` is zero.
pub open spec fn normal_along(delta: (int, int)) -> (int, int) {
    let length = isqrt_spec(delta.0 * delta.0 + delta.1 * delta.1);
    if length == 0 {
        (0x4000_0000, 0)
    } else {
        (normalized_component(delta.0, length), normalized_component(delta.1, length))
    }
}

/// `point + round(axis * distance / 2^30)` saturated to the geometry range.
pub open spec fn offset_point(point: (int, int), axis: (int, int), distance: int) -> (int, int) {
    (
        clamp_spec(point.0 + round_shift_spec(axis.0 * distance, 30), MIN_POINT as int, MAX_POINT as int),
        clamp_spec(point.1 + round_shift_spec(axis.1 * distance, 30), MIN_POINT as int, MAX_POINT as int),
    )
}

/// Two circles of radii `ra`, `rb` centered at `ca`, `cb` touch or overlap.
pub open spec fn circles_touch(ra: int, ca: (int, int), rb: int, cb: (int, int)) -> bool {
    let d = (cb.0 - ca.0, cb.1 - ca.1);
    d.0 * d.0 + d.1 * d.1 <= (ra + rb) * (ra + rb)
}

/// `c` is the contact of circle `ra` at `ca` (body `a`) with circle `rb` at
/// `cb` (body `b`): the normal points from A to B, the penetration is the
/// radius sum minus the floor center distance, and the point lies on the
/// normal from `ca`, half the penetration inside A's surface.
pub open spec fn is_circle_contact(
    c: Contact,
    a: BodyId,
    ra: int,
    ca: (int, int),
    b: BodyId,
    rb: int,
    cb: (int, int),
) -> bool {
    let d = (cb.0 - ca.0, cb.1 - ca.1);
    let distance = isqrt_spec(d.0 * d.0 + d.1 * d.1);
    let penetration = ra + rb - distance;
    let normal = normal_along(d);
    &&& c.body_a == a
    &&& c.body_b == b
    &&& (c.normal@.0 as int, c.normal@.1 as int) == normal
    &&& c.penetration@ == penetration
    &&& (c.point@.0 as int, c.point@.1 as int) == offset_point(ca, normal, ra - penetration / 2)
    &&& c.feature_a == ColliderFeature::Circle
    &&& c.feature_b == ColliderFeature::Circle
    &&& c.part_a is None
    &&& c.part_b is None
}

/// Contact of two circles at explicitly supplied world-space centers.
///
/// The circles' body-local centers are not applied by this low-level
/// helper. The normal points from A to B; coincident centers use +X.
#[inline]
pub fn collide(
    body_a: BodyId,
    circle_a: Circle,
    center_a: Position,
    body_b: BodyId,
    circle_b: Circle,
    center_b: Position,
) -> (r: Option<Contact>)
    ensures
        r is Some <==> circles_touch(circle_a@.1 as int, (center_a@.0 as int, center_a@.1 as int), circle_b@.1 as int, (center_b@.0 as int, center_b@.1 as int)),
        r matches Some(c) ==> is_circle_contact(c, body_a, circle_a@.1 as int, (center_a@.0 as int, center_a@.1 as int), body_b, circle_b@.1 as int, (center_b@.0 as int, center_b@.1 as int)),
{
    let a = center_a.raw();
    let b = center_b.raw();
    collide_at(
        body_a,
        circle_a,
        GeometryPoint::from_i32_unchecked(a[0], a[1]),
        body_b,
        circle_b,
        GeometryPoint::from_i32_unchecked(b[0], b[1]),
    )
}

/// Contact of two circles whose body-local centers are placed by the bodies'
/// transforms.
pub fn collide_transformed(
    body_a: BodyId,
    circle_a: Circle,
    transform_a: Transform,
    body_b: BodyId,
    circle_b: Circle,
    transform_b: Transform,
) -> (r: Option<Contact>)
    ensures
        ({
            let ca = transform_point(transform_a, (circle_a@.0.0 as int, circle_a@.0.1 as int));
            let cb = transform_point(transform_b, (circle_b@.0.0 as int, circle_b@.0.1 as int));
            &&& r is Some <==> circles_touch(circle_a@.1 as int, ca, circle_b@.1 as int, cb)
            &&& r matches Some(c) ==> is_circle_contact(c, body_a, circle_a@.1 as int, ca, body_b, circle_b@.1 as int, cb)
        }),
{
    let center_a = circle_a.transformed_center(transform_a);
    let center_b = circle_b.transformed_center(transform_b);
    collide_at(body_a, circle_a, center_a, body_b, circle_b, center_b)
}

fn collide_at(
    body_a: BodyId,
    circle_a: Circle,
    center_a: GeometryPoint,
    body_b: BodyId,
    circle_b: Circle,
    center_b: GeometryPoint,
) -> (r: Option<Contact>)
    ensures
        r is Some <==> circles_touch(circle_a@.1 as int, (center_a@.0 as int, center_a@.1 as int), circle_b@.1 as int, (center_b@.0 as int, center_b@.1 as int)),
        r matches Some(c) ==> is_circle_contact(c, body_a, circle_a@.1 as int, (center_a@.0 as int, center_a@.1 as int), body_b, circle_b@.1 as int, (center_b@.0 as int, center_b@.1 as int)),
{
    let delta = center_b.diff(center_a);
    let distance_squared = delta.squared_magnitude();
    let ra = circle_a.radius().raw();
    let rb = circle_b.radius().raw();
    let radius_sum = ra as u64 + rb as u64;
    proof {
        assert(radius_sum * radius_sum <= 0x4000_0000 * 0x4000_0000) by (nonlinear_arith)
            requires radius_sum <= 0x4000_0000;
    }
    if distance_squared > radius_sum * radius_sum {
        return None;
    }
    let distance = isqrt_u64(distance_squared);
    proof {
        assert(distance <= radius_sum) by (nonlinear_arith)
            requires
                distance * distance <= distance_squared,
                distance_squared <= radius_sum * radius_sum,
                distance >= 0,
                radius_sum >= 0,
        {
            if distance > radius_sum {
                assert(distance * distance > radius_sum * radius_sum);
            }
        }
    }
    let normal = match UnitVector::normalized_with_length(delta, distance) {
        Some(n) => n,
        None => UnitVector::x(),
    };
    let penetration = radius_sum - distance;
    let penetration_raw = penetration as u32;
    let contact_offset = ra as i64 - (penetration_raw / 2) as i64;
    let point = center_a.offset_clamped(normal, contact_offset);
    let length = Length::from_raw_saturating(penetration_raw);
    Some(Contact {
        body_a,
        body_b,
        point,
        normal,
        penetration: length,
        feature_a: ColliderFeature::Circle,
        feature_b: ColliderFeature::Circle,
        part_a: None,
        part_b: None,
    })
}

} // verus!
