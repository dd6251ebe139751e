//! Point queries on placed collision geometry, such as picking the body under
//! a pointer. Boundaries count as inside.

use vstd::prelude::*;

use crate::body::{Body, BodyId};
use crate::collider::convex::transformed_points;
use crate::collider::polygon::{next_index, pt_cross, pt_sub};
use crate::collider::{Collider, SimpleCollider};
use crate::quantity::position::{Position, clamp_position};
use crate::transform::{Transform, transform_point};
use crate::world::World;

verus! {

/// Side of the edge from vertex `i` to its successor on which `p` lies: the
/// cross product `(b - a) × (p - a)`.
pub open spec fn edge_side(points: Seq<(int, int)>, i: int, p: (int, int)) -> int {
    let a = points[i];
    let b = points[next_index(points.len() as int, i)];
    pt_cross(pt_sub(b, a), pt_sub(p, a))
}

/// `p` is not strictly left of one edge and strictly right of another: for
/// a convex polygon, `p` is inside it or on its boundary.
pub open spec fn polygon_contains(points: Seq<(int, int)>, p: (int, int)) -> bool {
    !((exists|i: int| 0 <= i < points.len() && #[trigger] edge_side(points, i, p) > 0)
        && (exists|j: int| 0 <= j < points.len() && #[trigger] edge_side(points, j, p) < 0))
}

/// A circle center placed by `transform`, saturated at the world boundary.
pub open spec fn placed_center(transform: Transform, local: (i32, i32)) -> (int, int) {
    let t = transform_point(transform, (local.0 as int, local.1 as int));
    (clamp_position(t.0), clamp_position(t.1))
}

/// `p` is within `radius` of `center`.
pub open spec fn disk_contains(center: (int, int), radius: int, p: (int, int)) -> bool {
    (p.0 - center.0) * (p.0 - center.0) + (p.1 - center.1) * (p.1 - center.1) <= radius * radius
}

/// The simple collider placed by `transform` holds `p`.
pub open spec fn simple_contains(collider: SimpleCollider, transform: Transform, p: (int, int)) -> bool {
    match collider {
        SimpleCollider::Circle(c) => disk_contains(placed_center(transform, c@.0), c@.1 as int, p),
        SimpleCollider::Convex(v) => polygon_contains(transformed_points(v@.0, transform), p),
    }
}

/// The collider placed by `transform` holds `p`; a composite holds it when
/// one of its parts does.
pub open spec fn collider_holds(collider: Collider, transform: Transform, p: (int, int)) -> bool {
    match collider {
        Collider::Circle(c) => simple_contains(SimpleCollider::Circle(c), transform, p),
        Collider::Convex(v) => simple_contains(SimpleCollider::Convex(v), transform, p),
        Collider::Composite(parts) => exists|i: int| 0 <= i < parts@.len() && #[trigger] simple_contains(parts@[i], transform, p),
    }
}

/// The dynamic body holds `p` at its current transform.
pub open spec fn body_holds(body: Body, p: (int, int)) -> bool {
    collider_holds(body@.1, body@.4@.0, p)
}

/// Whether a simple collider placed by `transform` contains `point`.
pub fn simple_collider_contains(collider: SimpleCollider, transform: Transform, point: Position) -> (r: bool)
    ensures
        r == simple_contains(collider, transform, (point@.0 as int, point@.1 as int)),
{
    let p = point.raw();
    let px: i32 = p[0];
    let py: i32 = p[1];
    match collider {
        SimpleCollider::Circle(circle) => {
            let center = transform.apply(circle.center()).raw();
            let dx = px as i64 - center[0] as i64;
            let dy = py as i64 - center[1] as i64;
            let radius = circle.radius().raw() as i64;
            proof {
                assert(dx * dx <= 0x4000_0000 * 0x4000_0000) by (nonlinear_arith)
                    requires -0x4000_0000 <= dx <= 0x4000_0000;
                assert(dy * dy <= 0x4000_0000 * 0x4000_0000) by (nonlinear_arith)
                    requires -0x4000_0000 <= dy <= 0x4000_0000;
                assert(0 <= dx * dx && 0 <= dy * dy) by (nonlinear_arith);
                assert(radius * radius <= 0x4000_0000 * 0x4000_0000) by (nonlinear_arith)
                    requires 0 <= radius <= 0x4000_0000;
            }
            dx * dx + dy * dy <= radius * radius
        },
        SimpleCollider::Convex(convex) => {
            let transformed = convex.transformed_vertices(transform);
            let vertices = transformed.as_slice();
            let n = vertices.len();
            let ghost points = transformed_points(convex@.0, transform);
            let ghost target = (px as int, py as int);
            let mut has_positive = false;
            let mut has_negative = false;
            let mut index: usize = 0;
            while index < n
                invariant
                    collider == SimpleCollider::Convex(convex),
                    points == transformed_points(convex@.0, transform),
                    n == vertices@.len(),
                    n == points.len(),
                    forall|i: int| 0 <= i < n ==> (vertices@[i]@.0 as int, vertices@[i]@.1 as int) == #[trigger] points[i],
                    target == (point@.0 as int, point@.1 as int),
                    px == point@.0,
                    py == point@.1,
                    -0x1fff_ffff <= px <= 0x1fff_ffff,
                    -0x1fff_ffff <= py <= 0x1fff_ffff,
                    index <= n,
                    has_positive == exists|i: int| 0 <= i < index && edge_side(points, i, target) > 0,
                    has_negative == exists|j: int| 0 <= j < index && edge_side(points, j, target) < 0,
                    !(has_positive && has_negative),
                decreases n - index,
            {
                let next = (index + 1) % n;
                proof {
                    if index + 1 < n {
                        vstd::arithmetic::div_mod::lemma_small_mod((index + 1) as nat, n as nat);
                    } else {
                        vstd::arithmetic::div_mod::lemma_mod_self_0(n as int);
                    }
                    assert(next as int == next_index(n as int, index as int));
                }
                let a = vertices[index].raw();
                let b = vertices[next].raw();
                let edge_x = b[0] as i64 - a[0] as i64;
                let edge_y = b[1] as i64 - a[1] as i64;
                let point_x = px as i64 - a[0] as i64;
                let point_y = py as i64 - a[1] as i64;
                proof {
                    lemma_edge_cross_fits(edge_x as int, edge_y as int, point_x as int, point_y as int);
                }
                let cross = edge_x * point_y - edge_y * point_x;
                proof {
                    let pa = points[index as int];
                    let pb = points[next_index(n as int, index as int)];
                    assert(pa == (a[0] as int, a[1] as int));
                    assert(pb == (b[0] as int, b[1] as int));
                    assert(pt_sub(pb, pa) == (edge_x as int, edge_y as int));
                    assert(pt_sub(target, pa) == (point_x as int, point_y as int));
                    assert(cross as int == edge_side(points, index as int, target));
                }
                has_positive = has_positive || cross > 0;
                has_negative = has_negative || cross < 0;
                if has_positive && has_negative {
                    proof {
                        if cross > 0 {
                            assert(edge_side(points, index as int, target) > 0);
                        }
                        if cross < 0 {
                            assert(edge_side(points, index as int, target) < 0);
                        }
                        assert(!polygon_contains(points, target));
                    }
                    return false;
                }
                index += 1;
            }
            true
        },
    }
}

/// Edge and point offsets inside the geometry range keep the cross product
/// in `i64`.
proof fn lemma_edge_cross_fits(edge_x: int, edge_y: int, point_x: int, point_y: int)
    requires
        -0x7fff_fffe <= edge_x <= 0x7fff_fffe,
        -0x7fff_fffe <= edge_y <= 0x7fff_fffe,
        -0x5fff_fffe <= point_x <= 0x5fff_fffe,
        -0x5fff_fffe <= point_y <= 0x5fff_fffe,
    ensures
        -0x3000_0000_0000_0000 <= edge_x * point_y <= 0x3000_0000_0000_0000,
        -0x3000_0000_0000_0000 <= edge_y * point_x <= 0x3000_0000_0000_0000,
{
    assert(-0x3000_0000_0000_0000 <= edge_x * point_y <= 0x3000_0000_0000_0000) by (nonlinear_arith)
        requires
            -0x7fff_fffe <= edge_x <= 0x7fff_fffe,
            -0x5fff_fffe <= point_y <= 0x5fff_fffe,
    ;
    assert(-0x3000_0000_0000_0000 <= edge_y * point_x <= 0x3000_0000_0000_0000) by (nonlinear_arith)
        requires
            -0x7fff_fffe <= edge_y <= 0x7fff_fffe,
            -0x5fff_fffe <= point_x <= 0x5fff_fffe,
    ;
}

/// Whether a collider placed by `transform` contains `point`; a composite
/// contains it when one of its parts does.
pub fn collider_contains(collider: &Collider, transform: Transform, point: Position) -> (r: bool)
    ensures
        r == collider_holds(*collider, transform, (point@.0 as int, point@.1 as int)),
{
    match collider {
        Collider::Circle(circle) => simple_collider_contains(SimpleCollider::Circle(*circle), transform, point),
        Collider::Convex(convex) => simple_collider_contains(SimpleCollider::Convex(*convex), transform, point),
        Collider::Composite(composite) => {
            let parts = composite.simple_colliders();
            let ghost target = (point@.0 as int, point@.1 as int);
            let mut index: usize = 0;
            while index < parts.len()
                invariant
                    *collider == Collider::Composite(*composite),
                    parts@ == composite@,
                    index <= parts@.len(),
                    target == (point@.0 as int, point@.1 as int),
                    forall|k: int| 0 <= k < index ==> !simple_contains(#[trigger] parts@[k], transform, target),
                decreases parts@.len() - index,
            {
                if simple_collider_contains(parts[index], transform, point) {
                    proof {
                        let i = index as int;
                        assert(0 <= i < composite@.len());
                        assert(simple_contains(composite@[i], transform, target));
                        let c = Collider::Composite(*composite);
                        assert(c matches Collider::Composite(q) && q@ == composite@);
                        assert(collider_holds(c, transform, target));
                    }
                    return true;
                }
                index += 1;
            }
            false
        },
    }
}

/// The identifier of the last dynamic body, in storage order, that contains
/// `point` at its current transform; `None` when no body does.
pub fn body_at_point(world: &World, point: Position) -> (r: Option<BodyId>)
    ensures
        ({
            let bodies = world@.1;
            let p = (point@.0 as int, point@.1 as int);
            &&& r is Some <==> exists|i: int| 0 <= i < bodies.len() && body_holds(bodies[i], p)
            &&& r matches Some(id) ==> exists|i: int| {
                &&& 0 <= i < bodies.len()
                &&& bodies[i]@.0 == id
                &&& body_holds(bodies[i], p)
                &&& forall|k: int| i < k < bodies.len() ==> !body_holds(#[trigger] bodies[k], p)
            }
        }),
{
    let bodies = world.bodies();
    let ghost target = (point@.0 as int, point@.1 as int);
    let mut remaining: usize = bodies.len();
    while remaining > 0
        invariant
            bodies@ == world@.1,
            remaining <= bodies@.len(),
            target == (point@.0 as int, point@.1 as int),
            forall|k: int| remaining <= k < bodies@.len() ==> !body_holds(#[trigger] bodies@[k], target),
        decreases remaining,
    {
        let index = remaining - 1;
        let body = &bodies[index];
        if collider_contains(body.collider_ref(), body.state().transform(), point) {
            return Some(body.id());
        }
        remaining = index;
    }
    None
}

} // verus!
