use vstd::prelude::*;

use crate::body::BodyId;
use crate::collider::convex::transformed_points;
use crate::collider::polygon::{next_index, pt_dot, pt_sub};
use crate::collider::{Circle, Convex};
use crate::geometry::point::GeometryPoint;
use crate::geometry::unit_vector::{UnitVector, normalized_component};
use crate::ops::{isqrt_spec, isqrt_u64, round_shift_spec};
use crate::quantity::cordic::sin_cos_spec;
use crate::quantity::length::{Length, MAX_LENGTH};
use crate::quantity::position::{rotated_x, rotated_y};
use crate::transform::{Transform, transform_point};
use super::circle_circle::offset_point;
use super::contact::{ColliderFeature, Contact};

verus! {

/// Edge normals of a convex placed by `transform`.
pub open spec fn rotated_normals(normals: Seq<(int, int)>, transform: Transform) -> Seq<(int, int)> {
    Seq::new(normals.len(), |i: int| rotate_normal(normals[i], transform))
}

/// A local normal rotated by the transform's angle.
pub open spec fn rotate_normal(normal: (int, int), transform: Transform) -> (int, int) {
    (
        rotated_x(normal.0, normal.1, sin_cos_spec(transform.angle@)),
        rotated_y(normal.0, normal.1, sin_cos_spec(transform.angle@)),
    )
}

/// Signed distance, rounded, of `center` outside face `i`.
pub open spec fn face_separation(center: (int, int), vertices: Seq<(int, int)>, normals: Seq<(int, int)>, i: int) -> int {
    round_shift_spec(pt_dot(pt_sub(center, vertices[i]), normals[i]), 30)
}

/// `(index, separation)` of the first face with the greatest separation among
/// faces `0..k`; `(0, i64::MIN)` for none.
pub open spec fn best_face_upto(center: (int, int), vertices: Seq<(int, int)>, normals: Seq<(int, int)>, k: int) -> (int, int)
    decreases k,
{
    if k <= 0 {
        (0, i64::MIN as int)
    } else {
        let best = best_face_upto(center, vertices, normals, k - 1);
        let s = face_separation(center, vertices, normals, k - 1);
        if s > best.1 { (k - 1, s) } else { best }
    }
}

/// Contact data `(normal, raw penetration, feature on the convex)`.
pub type CircleConvexHit = ((int, int), int, ColliderFeature);

/// Contact of a circle of radius `radius` at `center` with a vertex.
pub open spec fn vertex_hit(center: (int, int), radius: int, vertex: (int, int), index: int) -> Option<CircleConvexHit> {
    let delta = pt_sub(vertex, center);
    let d2 = delta.0 * delta.0 + delta.1 * delta.1;
    let distance = isqrt_spec(d2);
    if d2 > radius * radius || distance == 0 {
        None
    } else {
        Some((
            (normalized_component(delta.0, distance), normalized_component(delta.1, distance)),
            radius - distance,
            ColliderFeature::ConvexVertex(index as u8),
        ))
    }
}

/// Narrow-phase outcome for a circle at `center` against convex faces with
/// world-space `vertices` and outward `normals`.
pub open spec fn circle_convex_hit(center: (int, int), radius: int, vertices: Seq<(int, int)>, normals: Seq<(int, int)>) -> Option<CircleConvexHit> {
    let n = vertices.len() as int;
    if exists|i: int| 0 <= i < n && #[trigger] face_separation(center, vertices, normals, i) > radius {
        None
    } else {
        let best = best_face_upto(center, vertices, normals, n);
        let i = best.0;
        let j = next_index(n, i);
        let face = Some(((-normals[i].0, -normals[i].1), radius - best.1, ColliderFeature::ConvexEdge(i as u8)));
        let a = vertices[i];
        let b = vertices[j];
        let edge = pt_sub(b, a);
        if best.1 <= 0 {
            face
        } else if pt_dot(edge, pt_sub(center, a)) <= 0 {
            vertex_hit(center, radius, a, i)
        } else if pt_dot(edge, pt_sub(center, b)) >= 0 {
            vertex_hit(center, radius, b, j)
        } else {
            face
        }
    }
}

/// The best face among `0..k` is one of them, and no face there separates
/// the center further.
proof fn lemma_best_face(center: (int, int), vertices: Seq<(int, int)>, normals: Seq<(int, int)>, k: int)
    requires
        k >= 1,
    ensures
        0 <= best_face_upto(center, vertices, normals, k).0 < k,
        best_face_upto(center, vertices, normals, k).1 > i64::MIN ==> best_face_upto(center, vertices, normals, k).1
            == face_separation(center, vertices, normals, best_face_upto(center, vertices, normals, k).0),
        forall|j: int| 0 <= j < k ==> #[trigger] face_separation(center, vertices, normals, j)
            <= best_face_upto(center, vertices, normals, k).1,
    decreases k,
{
    assert(best_face_upto(center, vertices, normals, 0) == (0int, i64::MIN as int));
    if k > 1 {
        lemma_best_face(center, vertices, normals, k - 1);
    }
    let previous = best_face_upto(center, vertices, normals, k - 1);
    let s = face_separation(center, vertices, normals, k - 1);
    assert(best_face_upto(center, vertices, normals, k) == (if s > previous.1 { (k - 1, s) } else { previous }));
}

/// Squared distance between two points.
pub open spec fn distance_squared(p: (int, int), q: (int, int)) -> int {
    (p.0 - q.0) * (p.0 - q.0) + (p.1 - q.1) * (p.1 - q.1)
}

/// A circle–convex contact needs the circle to reach the polygon: a corner
/// contact's corner lies within the radius of the center, and a face contact
/// either has the center behind every face (inside the polygon) or has it at
/// most a radius out of that face with its projection strictly between the
/// face's two corners. A center beyond a corner of the nearest face therefore
/// never yields a face contact.
pub proof fn lemma_circle_contact_reaches_polygon(
    center: (int, int),
    radius: int,
    vertices: Seq<(int, int)>,
    normals: Seq<(int, int)>,
)
    requires
        vertices.len() >= 1,
        vertices.len() < 256,
    ensures
        ({
            let n = vertices.len() as int;
            circle_convex_hit(center, radius, vertices, normals) matches Some(hit) ==> {
                &&& hit.2 matches ColliderFeature::ConvexVertex(k) ==> exists|i: int|
                    0 <= i < n && k == i as u8 && #[trigger] distance_squared(vertices[i], center) <= radius * radius
                &&& hit.2 matches ColliderFeature::ConvexEdge(k) ==> exists|i: int| {
                    &&& 0 <= i < n
                    &&& k == i as u8
                    &&& #[trigger] face_separation(center, vertices, normals, i) <= radius
                    &&& {
                        ||| forall|j: int| 0 <= j < n ==> #[trigger] face_separation(center, vertices, normals, j) <= 0
                        ||| {
                            let a = vertices[i];
                            let b = vertices[next_index(n, i)];
                            &&& face_separation(center, vertices, normals, i) > 0
                            &&& pt_dot(pt_sub(b, a), pt_sub(center, a)) > 0
                            &&& pt_dot(pt_sub(b, a), pt_sub(center, b)) < 0
                        }
                    }
                }
                &&& !(hit.2 is Circle)
            }
        }),
{
    let n = vertices.len() as int;
    lemma_best_face(center, vertices, normals, n);
    let best = best_face_upto(center, vertices, normals, n);
    let i = best.0;
    let j = next_index(n, i);
    if let Some(hit) = circle_convex_hit(center, radius, vertices, normals) {
        assert(!exists|q: int| 0 <= q < n && #[trigger] face_separation(center, vertices, normals, q) > radius);
        assert(face_separation(center, vertices, normals, i) <= radius);
        if best.1 <= 0 {
            assert(hit.2 == ColliderFeature::ConvexEdge(i as u8));
        } else {
            let a = vertices[i];
            let b = vertices[j];
            let edge = pt_sub(b, a);
            if pt_dot(edge, pt_sub(center, a)) <= 0 {
                assert(hit == vertex_hit(center, radius, a, i)->0);
                assert(distance_squared(vertices[i], center) <= radius * radius);
            } else if pt_dot(edge, pt_sub(center, b)) >= 0 {
                assert(hit == vertex_hit(center, radius, b, j)->0);
                assert(distance_squared(vertices[j], center) <= radius * radius);
            } else {
                assert(hit.2 == ColliderFeature::ConvexEdge(i as u8));
            }
        }
    }
}

/// `c` carries the hit of circle body `a` (center `center`, radius `radius`)
/// against convex body `b`: the point lies on the normal from the center,
/// half the penetration inside the circle, and the penetration saturates at
/// the length range.
pub open spec fn is_circle_convex_contact(c: Contact, a: BodyId, b: BodyId, center: (int, int), radius: int, hit: CircleConvexHit) -> bool {
    let penetration = if hit.1 > MAX_LENGTH { MAX_LENGTH as int } else { hit.1 };
    &&& c.body_a == a
    &&& c.body_b == b
    &&& (c.normal@.0 as int, c.normal@.1 as int) == hit.0
    &&& c.penetration@ == penetration
    &&& (c.point@.0 as int, c.point@.1 as int) == offset_point(center, hit.0, radius - penetration / 2)
    &&& c.feature_a == ColliderFeature::Circle
    &&& c.feature_b == hit.2
    &&& c.part_a is None
    &&& c.part_b is None
}

/// Contact of the circle of `circle_body` with the convex of `convex_body`;
/// the normal points from the circle to the convex. The circle's center is
/// its body-local center placed by `circle_transform`, as for bounding boxes
/// and circle pairs, so an offset circle part meets a convex where it is.
pub fn collide(
    circle_body: BodyId,
    circle: Circle,
    circle_transform: Transform,
    convex_body: BodyId,
    convex: Convex,
    convex_transform: Transform,
) -> (r: Option<Contact>)
    ensures
        ({
            let center = transform_point(circle_transform, (circle@.0.0 as int, circle@.0.1 as int));
            let vertices = transformed_points(convex@.0, convex_transform);
            let normals = rotated_normals(convex@.1, convex_transform);
            let hit = circle_convex_hit(center, circle@.1 as int, vertices, normals);
            &&& r is Some <==> hit is Some
            &&& r matches Some(c) ==> is_circle_convex_contact(c, circle_body, convex_body, center, circle@.1 as int, hit->0)
        }),
{
    let transformed = convex.transformed_vertices(convex_transform);
    let vertices = transformed.as_slice();
    let normals = convex.normals();
    let n = convex.len();
    let center = circle.transformed_center(circle_transform);
    let radius = circle.radius().raw() as i64;
    let ghost c = (center@.0 as int, center@.1 as int);
    let ghost vs = transformed_points(convex@.0, convex_transform);
    let ghost ns = rotated_normals(convex@.1, convex_transform);
    let mut best_index: usize = 0;
    let mut best_separation: i64 = i64::MIN;
    let mut best_normal = UnitVector::x();
    for index in 0..n
        invariant
            vs == transformed_points(convex@.0, convex_transform),
            ns == rotated_normals(convex@.1, convex_transform),
            n == vs.len(),
            n == ns.len(),
            3 <= n <= 6,
            vertices@.len() == n,
            normals@.len() == n,
            forall|j: int| 0 <= j < n ==> ((#[trigger] vertices@[j])@.0 as int, vertices@[j]@.1 as int) == vs[j],
            forall|j: int| 0 <= j < n ==> ((#[trigger] normals@[j])@.0 as int, normals@[j]@.1 as int) == convex@.1[j],
            forall|j: int| 0 <= j < n ==> -0x4000_0000 <= (#[trigger] normals@[j])@.0 <= 0x4000_0000
                && -0x4000_0000 <= normals@[j]@.1 <= 0x4000_0000,
            c == (center@.0 as int, center@.1 as int),
            c == transform_point(circle_transform, (circle@.0.0 as int, circle@.0.1 as int)),
            radius == circle@.1,
            (best_index as int, best_separation as int) == best_face_upto(c, vs, ns, index as int),
            index > 0 ==> (best_normal@.0 as int, best_normal@.1 as int) == ns[best_index as int],
            best_index < n,
            index > 0 ==> -0x2_0000_0000 <= best_separation <= radius,
            forall|j: int| 0 <= j < index ==> #[trigger] face_separation(c, vs, ns, j) <= radius,
    {
        let normal = normals[index].rotate(convex_transform.angle);
        let offset = center.diff(vertices[index]);
        let separation = normal.dot(offset);
        proof {
            assert(convex@.1[index as int] == (normals@[index as int]@.0 as int, normals@[index as int]@.1 as int));
            assert(ns[index as int] == rotate_normal(convex@.1[index as int], convex_transform));
            assert((normal@.0 as int, normal@.1 as int) == ns[index as int]);
            assert(vs[index as int] == ((vertices@[index as int])@.0 as int, vertices@[index as int]@.1 as int));
            assert(separation == face_separation(c, vs, ns, index as int));
            let d = offset@;
            let m = normal@;
            assert(-0x6000_0000_0000_0000 <= d.0 * m.0 + d.1 * m.1 <= 0x6000_0000_0000_0000) by (nonlinear_arith)
                requires
                    -0x8000_0000 <= d.0 <= 0x8000_0000, -0x8000_0000 <= d.1 <= 0x8000_0000,
                    -1_518_500_250 <= m.0 <= 1_518_500_250, -1_518_500_250 <= m.1 <= 1_518_500_250,
            ;
            crate::ops::lemma_round_shift_bound(d.0 * m.0 + d.1 * m.1, 30, 0x6000_0000_0000_0000);
            vstd::arithmetic::power2::lemma2_to64();
        }
        if separation > radius {
            return None;
        }
        if separation > best_separation {
            best_index = index;
            best_separation = separation;
            best_normal = normal;
        }
    }
    proof {
        assert(!exists|i: int| 0 <= i < n && #[trigger] face_separation(c, vs, ns, i) > radius);
    }
    let next = if best_index + 1 >= n { 0 } else { best_index + 1 };
    let a = vertices[best_index];
    let b = vertices[next];
    if best_separation <= 0 {
        return Some(build_contact(circle_body, convex_body, center, best_normal.neg(), (radius - best_separation) as i128,
            radius as u32, ColliderFeature::ConvexEdge(best_index as u8)));
    }
    let edge = b.diff(a);
    if edge.dot(center.diff(a)) <= 0 {
        vertex_contact(circle_body, convex_body, center, a, radius as u32, best_index)
    } else if edge.dot(center.diff(b)) >= 0 {
        vertex_contact(circle_body, convex_body, center, b, radius as u32, next)
    } else {
        Some(build_contact(circle_body, convex_body, center, best_normal.neg(), (radius - best_separation) as i128,
            radius as u32, ColliderFeature::ConvexEdge(best_index as u8)))
    }
}

fn vertex_contact(
    circle_body: BodyId,
    convex_body: BodyId,
    center: GeometryPoint,
    vertex: GeometryPoint,
    radius: u32,
    index: usize,
) -> (r: Option<Contact>)
    requires
        radius <= MAX_LENGTH,
        index < 6,
    ensures
        ({
            let c = (center@.0 as int, center@.1 as int);
            let hit = vertex_hit(c, radius as int, (vertex@.0 as int, vertex@.1 as int), index as int);
            &&& r is Some <==> hit is Some
            &&& r matches Some(contact) ==> is_circle_convex_contact(contact, circle_body, convex_body, c, radius as int, hit->0)
        }),
{
    let delta = vertex.diff(center);
    let distance_squared = delta.squared_magnitude();
    let r = radius as u64;
    proof {
        assert(r * r <= 0x4000_0000 * 0x4000_0000) by (nonlinear_arith)
            requires r <= 0x4000_0000;
    }
    if distance_squared > r * r {
        return None;
    }
    let distance = isqrt_u64(distance_squared);
    proof {
        assert(distance <= r) by (nonlinear_arith)
            requires
                distance * distance <= distance_squared,
                distance_squared <= r * r,
                distance >= 0,
        {
            if distance > r {
                assert(distance * distance > r * r);
            }
        }
    }
    let normal = match UnitVector::normalized_with_length(delta, distance) {
        Some(n) => n,
        None => {
            return None;
        },
    };
    Some(build_contact(circle_body, convex_body, center, normal, (r - distance) as i128, radius,
        ColliderFeature::ConvexVertex(index as u8)))
}

fn build_contact(
    circle_body: BodyId,
    convex_body: BodyId,
    center: GeometryPoint,
    normal: UnitVector,
    penetration: i128,
    radius: u32,
    feature: ColliderFeature,
) -> (c: Contact)
    requires
        penetration >= 0,
        radius <= MAX_LENGTH,
    ensures
        is_circle_convex_contact(c, circle_body, convex_body, (center@.0 as int, center@.1 as int), radius as int,
            ((normal@.0 as int, normal@.1 as int), penetration as int, feature)),
{
    let clamped: u32 = if penetration > MAX_LENGTH as i128 { MAX_LENGTH } else { penetration as u32 };
    let contact_offset = radius as i64 - (clamped / 2) as i64;
    Contact {
        body_a: circle_body,
        body_b: convex_body,
        point: center.offset_clamped(normal, contact_offset),
        normal,
        penetration: Length::from_raw_saturating(clamped),
        feature_a: ColliderFeature::Circle,
        feature_b: feature,
        part_a: None,
        part_b: None,
    }
}

} // verus!
