use vstd::prelude::*;

use crate::body::BodyId;
use crate::collider::Convex;
use crate::collider::convex::{seq_max, seq_min, transformed_points};
use crate::collider::polygon::{next_index, pt_dot, pt_sub};
use crate::geometry::point::{GeometryPoint, MAX_POINT, MIN_POINT};
use crate::geometry::unit_vector::UnitVector;
use crate::ops::{clamp_spec, round_shift_spec, trunc_div};
use crate::quantity::length::{Length, MAX_LENGTH};
use crate::transform::Transform;
use super::circle_convex::rotated_normals;
use super::contact::{ColliderFeature, Contact, ContactData, ContactManifold, contact_matches};

verus! {

/// Separation below which both ends of a clipped face overlap are kept:
/// `1/1024 m` in Q16.
pub const MANIFOLD_SLOP_RAW: i64 = 64;

/// Which convex supplied the separating-axis candidate.
#[derive(Debug, Clone, Copy, PartialEq, Eq, Structural)]
pub enum AxisSource {
    A,
    B,
}

/// Projection of a point on an axis, rounded from Q30.
pub open spec fn projection(p: (int, int), axis: (int, int)) -> int {
    round_shift_spec(pt_dot(p, axis), 30)
}

/// Projections of all points on an axis.
pub open spec fn projections(points: Seq<(int, int)>, axis: (int, int)) -> Seq<int> {
    Seq::new(points.len(), |k: int| projection(points[k], axis))
}

/// Smallest projection of the points on an axis.
pub open spec fn min_projection(points: Seq<(int, int)>, axis: (int, int)) -> int {
    seq_min(projections(points, axis), points.len() as int)
}

/// Largest projection of the points on an axis.
pub open spec fn max_projection(points: Seq<(int, int)>, axis: (int, int)) -> int {
    seq_max(projections(points, axis), points.len() as int)
}

/// Best axis so far: `(penetration, axis, source)`.
pub type BestAxis = Option<(int, (int, int), AxisSource)>;

/// Keeps the candidate unless an earlier one has no larger penetration. The
/// penetration is truncated to 32 bits as it is stored.
pub open spec fn update_best(best: BestAxis, penetration: int, axis: (int, int), source: AxisSource) -> BestAxis {
    let p = (penetration as u32) as int;
    match best {
        None => Some((p, axis, source)),
        Some(current) => if p < current.0 { Some((p, axis, source)) } else { best },
    }
}

/// Tests one axis: `None` when it separates the polygons, otherwise the best
/// axis after considering it in the direction of smaller overlap.
pub open spec fn select_axis(best: BestAxis, axis: (int, int), source: AxisSource, a: Seq<(int, int)>, b: Seq<(int, int)>) -> Option<BestAxis> {
    let move_a_negative = max_projection(a, axis) - min_projection(b, axis);
    let move_a_positive = max_projection(b, axis) - min_projection(a, axis);
    if move_a_negative < 0 || move_a_positive < 0 {
        None
    } else if move_a_negative <= move_a_positive {
        Some(update_best(best, move_a_negative, axis, source))
    } else {
        Some(update_best(best, move_a_positive, (-axis.0, -axis.1), source))
    }
}

/// Candidate axes: A's face normals, then B's.
pub open spec fn candidate_axes(normals_a: Seq<(int, int)>, normals_b: Seq<(int, int)>) -> Seq<((int, int), AxisSource)> {
    Seq::new(normals_a.len(), |i: int| (normals_a[i], AxisSource::A))
        + Seq::new(normals_b.len(), |i: int| (normals_b[i], AxisSource::B))
}

/// Separating-axis scan over the first `k` candidate axes; `None` once one
/// separates.
pub open spec fn axis_scan(axes: Seq<((int, int), AxisSource)>, a: Seq<(int, int)>, b: Seq<(int, int)>, k: int) -> Option<BestAxis>
    decreases k,
{
    if k <= 0 {
        Some(None)
    } else {
        match axis_scan(axes, a, b, k - 1) {
            None => None,
            Some(best) => select_axis(best, axes[k - 1].0, axes[k - 1].1, a, b),
        }
    }
}

/// Alignment of a face normal with the reference direction.
pub open spec fn alignment(outward: (int, int), normal: (int, int)) -> int {
    outward.0 * normal.0 + outward.1 * normal.1
}

/// First face among `0..k` whose normal is most (or least) aligned.
pub open spec fn supporting_face(outward: (int, int), normals: Seq<(int, int)>, most: bool, k: int) -> int
    decreases k,
{
    if k <= 1 {
        0
    } else {
        let e = supporting_face(outward, normals, most, k - 1);
        let candidate = alignment(outward, normals[k - 1]);
        let best = alignment(outward, normals[e]);
        if (most && candidate > best) || (!most && candidate < best) { k - 1 } else { e }
    }
}

/// `n / d` rounded to nearest, halves away from zero.
pub open spec fn div_round(n: int, d: int) -> int {
    let m = if n < 0 { -n } else { n };
    let e = if d < 0 { -d } else { d };
    let q = (2 * m + e) / (2 * e);
    if (n < 0) != (d < 0) { -q } else { q }
}

/// The point of segment `p0 p1` whose projection on `axis` is `projection`,
/// interpolated with rounding and saturated to the geometry range.
pub open spec fn point_on_segment(p0: (int, int), p1: (int, int), axis: (int, int), target: int) -> (int, int) {
    let a = projection(p0, axis);
    let b = projection(p1, axis);
    if target == a || a == b {
        p0
    } else if target == b {
        p1
    } else {
        (
            clamp_spec(p0.0 + div_round((p1.0 - p0.0) * (target - a), b - a), MIN_POINT as int, MAX_POINT as int),
            clamp_spec(p0.1 + div_round((p1.1 - p0.1) * (target - a), b - a), MIN_POINT as int, MAX_POINT as int),
        )
    }
}

/// Feature of the segment `p0 p1` (edge `edge`, ending at vertex `next`) at a
/// projection: an end vertex when it projects exactly there, else the edge.
pub open spec fn segment_feature(p0: (int, int), p1: (int, int), edge: int, next: int, axis: (int, int), target: int) -> ColliderFeature {
    let a = projection(p0, axis);
    let b = projection(p1, axis);
    if a != b && target == a {
        ColliderFeature::ConvexVertex(edge as u8)
    } else if a != b && target == b {
        ColliderFeature::ConvexVertex(next as u8)
    } else {
        ColliderFeature::ConvexEdge(edge as u8)
    }
}

/// Clipping candidate at a tangent projection: `(point, separation,
/// reference feature, incident feature)`.
pub open spec fn clip_candidate(
    reference: Seq<(int, int)>,
    re: int,
    incident: Seq<(int, int)>,
    ie: int,
    tangent: (int, int),
    outward: (int, int),
    target: int,
) -> ((int, int), int, ColliderFeature, ColliderFeature) {
    let rn = next_index(reference.len() as int, re);
    let inn = next_index(incident.len() as int, ie);
    let rp = point_on_segment(reference[re], reference[rn], tangent, target);
    let ip = point_on_segment(incident[ie], incident[inn], tangent, target);
    (
        (trunc_div(rp.0 + ip.0, 2), trunc_div(rp.1 + ip.1, 2)),
        projection(pt_sub(ip, rp), outward),
        segment_feature(reference[re], reference[rn], re, rn, tangent, target),
        segment_feature(incident[ie], incident[inn], ie, inn, tangent, target),
    )
}

/// Contact geometry of a clipping candidate, with features ordered `(A, B)`.
pub open spec fn candidate_contact(
    candidate: ((int, int), int, ColliderFeature, ColliderFeature),
    normal: (int, int),
    penetration: int,
    source: AxisSource,
) -> ContactData {
    let p = if penetration > MAX_LENGTH { MAX_LENGTH as int } else { penetration };
    match source {
        AxisSource::A => (candidate.0, normal, p, candidate.2, candidate.3),
        AxisSource::B => (candidate.0, normal, p, candidate.3, candidate.2),
    }
}

/// The reference face, the incident face, and the overlap `[tmin, tmax]` of
/// their projections on the tangent of `normal`.
pub open spec fn clip_interval(
    rv: Seq<(int, int)>,
    rn: Seq<(int, int)>,
    iv: Seq<(int, int)>,
    inn: Seq<(int, int)>,
    normal: (int, int),
    outward: (int, int),
) -> (int, int, int, int) {
    let tangent = (-normal.1, normal.0);
    let re = supporting_face(outward, rn, true, rn.len() as int);
    let ie = supporting_face(outward, inn, false, inn.len() as int);
    let r0 = projection(rv[re], tangent);
    let r1 = projection(rv[next_index(rv.len() as int, re)], tangent);
    let i0 = projection(iv[ie], tangent);
    let i1 = projection(iv[next_index(iv.len() as int, ie)], tangent);
    let rmin = if r0 < r1 { r0 } else { r1 };
    let rmax = if r0 < r1 { r1 } else { r0 };
    let imin = if i0 < i1 { i0 } else { i1 };
    let imax = if i0 < i1 { i1 } else { i0 };
    (re, ie, if rmin > imin { rmin } else { imin }, if rmax < imax { rmax } else { imax })
}

/// Clips the reference face most aligned with `outward` against the incident
/// face least aligned with it, along the tangent of `normal`.
pub open spec fn clip_faces(
    rv: Seq<(int, int)>,
    rn: Seq<(int, int)>,
    iv: Seq<(int, int)>,
    inn: Seq<(int, int)>,
    normal: (int, int),
    outward: (int, int),
    penetration: int,
    source: AxisSource,
) -> (ContactData, Option<ContactData>) {
    let tangent = (-normal.1, normal.0);
    let (re, ie, tmin, tmax) = clip_interval(rv, rn, iv, inn, normal, outward);
    if tmin > tmax {
        let c = clip_candidate(rv, re, iv, ie, tangent, outward, trunc_div(tmin + tmax, 2));
        (candidate_contact(c, normal, penetration, source), None)
    } else {
        let first = clip_candidate(rv, re, iv, ie, tangent, outward, tmin);
        if tmin == tmax {
            (candidate_contact(first, normal, penetration, source), None)
        } else {
            let second = clip_candidate(rv, re, iv, ie, tangent, outward, tmax);
            if first.1 <= MANIFOLD_SLOP_RAW && second.1 <= MANIFOLD_SLOP_RAW {
                (candidate_contact(first, normal, penetration, source), Some(candidate_contact(second, normal, penetration, source)))
            } else if first.1 <= second.1 {
                (candidate_contact(first, normal, penetration, source), None)
            } else {
                (candidate_contact(second, normal, penetration, source), None)
            }
        }
    }
}

/// Clipping keeps the deepest points: when the faces overlap over an
/// interval with two distinct ends, both ends are kept exactly when both lie
/// within the manifold slop, and otherwise the single contact kept is the end
/// whose separation along `outward` is the smaller (the deeper one).
pub proof fn lemma_clip_keeps_deepest(
    rv: Seq<(int, int)>,
    rn: Seq<(int, int)>,
    iv: Seq<(int, int)>,
    inn: Seq<(int, int)>,
    normal: (int, int),
    outward: (int, int),
    penetration: int,
    source: AxisSource,
)
    ensures
        ({
            let (re, ie, tmin, tmax) = clip_interval(rv, rn, iv, inn, normal, outward);
            let tangent = (-normal.1, normal.0);
            let first = clip_candidate(rv, re, iv, ie, tangent, outward, tmin);
            let second = clip_candidate(rv, re, iv, ie, tangent, outward, tmax);
            let m = clip_faces(rv, rn, iv, inn, normal, outward, penetration, source);
            tmin < tmax ==> {
                &&& (m.1 is Some <==> (first.1 <= MANIFOLD_SLOP_RAW && second.1 <= MANIFOLD_SLOP_RAW))
                &&& m.1 is Some ==> m.0 == candidate_contact(first, normal, penetration, source)
                    && m.1 == Some(candidate_contact(second, normal, penetration, source))
                &&& m.1 is None ==> {
                    ||| m.0 == candidate_contact(first, normal, penetration, source) && first.1 <= second.1
                    ||| m.0 == candidate_contact(second, normal, penetration, source) && second.1 <= first.1
                }
            }
        }),
{
}

/// Manifold along the chosen axis `(penetration, normal, source)`: the
/// source polygon's face is the reference face.
pub open spec fn axis_manifold(
    va: Seq<(int, int)>,
    na: Seq<(int, int)>,
    vb: Seq<(int, int)>,
    nb: Seq<(int, int)>,
    best: (int, (int, int), AxisSource),
) -> (ContactData, Option<ContactData>) {
    match best.2 {
        AxisSource::A => clip_faces(va, na, vb, nb, best.1, best.1, best.0, AxisSource::A),
        AxisSource::B => clip_faces(vb, nb, va, na, best.1, (-best.1.0, -best.1.1), best.0, AxisSource::B),
    }
}

/// Manifold of two placed convex polygons, or `None` when an axis separates
/// them. Vertices and face normals are in world space.
pub open spec fn convex_manifold(
    va: Seq<(int, int)>,
    na: Seq<(int, int)>,
    vb: Seq<(int, int)>,
    nb: Seq<(int, int)>,
) -> Option<(ContactData, Option<ContactData>)> {
    let axes = candidate_axes(na, nb);
    match axis_scan(axes, va, vb, axes.len() as int) {
        Some(Some(best)) => Some(axis_manifold(va, na, vb, nb, best)),
        _ => None,
    }
}

/// World-space geometry of the points of a slice.
pub open spec fn point_views(points: Seq<GeometryPoint>) -> Seq<(int, int)> {
    Seq::new(points.len(), |i: int| (points[i]@.0 as int, points[i]@.1 as int))
}

/// World-space geometry of a list of directions.
pub open spec fn direction_views(directions: Seq<UnitVector>) -> Seq<(int, int)> {
    Seq::new(directions.len(), |i: int| (directions[i]@.0 as int, directions[i]@.1 as int))
}

/// The view of an exec best axis.
pub open spec fn best_view(best: Option<(u32, UnitVector, AxisSource)>) -> BestAxis {
    match best {
        None => None,
        Some(b) => Some((b.0 as int, (b.1@.0 as int, b.1@.1 as int), b.2)),
    }
}

/// Components of a rotated face normal or its opposite.
pub open spec fn axis_bounded(axis: (int, int)) -> bool {
    -1_518_500_250 <= axis.0 <= 1_518_500_250 && -1_518_500_250 <= axis.1 <= 1_518_500_250
}

proof fn lemma_projection_bounds(p: (int, int), axis: (int, int))
    requires
        MIN_POINT <= p.0 <= MAX_POINT,
        MIN_POINT <= p.1 <= MAX_POINT,
        axis_bounded(axis),
    ensures
        -0x2_0000_0000 <= projection(p, axis) <= 0x2_0000_0000,
        -0x3000_0000_0000_0000 <= pt_dot(p, axis) <= 0x3000_0000_0000_0000,
{
    assert(-0x3000_0000_0000_0000 <= p.0 * axis.0 + p.1 * axis.1 <= 0x3000_0000_0000_0000) by (nonlinear_arith)
        requires
            -0x3fff_ffff <= p.0 <= 0x3fff_ffff, -0x3fff_ffff <= p.1 <= 0x3fff_ffff,
            -1_518_500_250 <= axis.0 <= 1_518_500_250, -1_518_500_250 <= axis.1 <= 1_518_500_250,
    ;
    crate::ops::lemma_round_shift_bound(pt_dot(p, axis), 30, 0x3000_0000_0000_0000);
    vstd::arithmetic::power2::lemma2_to64();
}

/// Rounded projection of a geometry point on a bounded axis.
fn project_point(point: GeometryPoint, axis: UnitVector) -> (r: i64)
    requires
        axis_bounded((axis@.0 as int, axis@.1 as int)),
    ensures
        r as int == projection((point@.0 as int, point@.1 as int), (axis@.0 as int, axis@.1 as int)),
        -0x2_0000_0000 <= r <= 0x2_0000_0000,
{
    let vector = point.to_vec();
    proof {
        lemma_projection_bounds((point@.0 as int, point@.1 as int), (axis@.0 as int, axis@.1 as int));
    }
    axis.dot(vector)
}

/// Smallest and largest projection of the points on an axis.
fn project(vertices: &[GeometryPoint], axis: UnitVector) -> (r: (i64, i64))
    requires
        vertices@.len() >= 1,
        axis_bounded((axis@.0 as int, axis@.1 as int)),
    ensures
        r.0 as int == min_projection(point_views(vertices@), (axis@.0 as int, axis@.1 as int)),
        r.1 as int == max_projection(point_views(vertices@), (axis@.0 as int, axis@.1 as int)),
        -0x2_0000_0000 <= r.0 <= 0x2_0000_0000,
        -0x2_0000_0000 <= r.1 <= 0x2_0000_0000,
{
    let ghost pts = point_views(vertices@);
    let ghost ax = (axis@.0 as int, axis@.1 as int);
    let first = project_point(vertices[0], axis);
    let mut min = first;
    let mut max = first;
    let n = vertices.len();
    assert(projections(pts, ax)[0] == first);
    for i in 1..n
        invariant
            n == vertices@.len(),
            pts == point_views(vertices@),
            ax == (axis@.0 as int, axis@.1 as int),
            axis_bounded(ax),
            min as int == seq_min(projections(pts, ax), i as int),
            max as int == seq_max(projections(pts, ax), i as int),
            -0x2_0000_0000 <= min <= 0x2_0000_0000,
            -0x2_0000_0000 <= max <= 0x2_0000_0000,
    {
        let p = project_point(vertices[i], axis);
        assert(projections(pts, ax)[i as int] == p);
        if p < min {
            min = p;
        }
        if p > max {
            max = p;
        }
    }
    (min, max)
}

fn update_best_axis(best: &mut Option<(u32, UnitVector, AxisSource)>, penetration: i64, axis: UnitVector, source: AxisSource)
    ensures
        best_view(*final(best)) == update_best(best_view(*old(best)), penetration as int, (axis@.0 as int, axis@.1 as int), source),
        match *final(best) {
            Some(b) => (b.1 == axis) || (*old(best) matches Some(o) && b == o),
            None => false,
        },
{
    let p = penetration as u32;
    let replace = match *best {
        None => true,
        Some(current) => p < current.0,
    };
    if replace {
        *best = Some((p, axis, source));
    }
}

/// Tests one candidate axis; `false` when it separates the polygons.
fn select_axis_exec(
    best: &mut Option<(u32, UnitVector, AxisSource)>,
    axis: UnitVector,
    source: AxisSource,
    a: &[GeometryPoint],
    b: &[GeometryPoint],
) -> (r: bool)
    requires
        a@.len() >= 1,
        b@.len() >= 1,
        axis_bounded((axis@.0 as int, axis@.1 as int)),
        match *old(best) {
            Some(o) => axis_bounded((o.1@.0 as int, o.1@.1 as int)),
            None => true,
        },
    ensures
        r ==> select_axis(best_view(*old(best)), (axis@.0 as int, axis@.1 as int), source, point_views(a@), point_views(b@))
            == Some(best_view(*final(best))),
        !r ==> select_axis(best_view(*old(best)), (axis@.0 as int, axis@.1 as int), source, point_views(a@), point_views(b@)) is None,
        match *final(best) {
            Some(f) => axis_bounded((f.1@.0 as int, f.1@.1 as int)),
            None => false,
        } || !r,
{
    let pa = project(a, axis);
    let pb = project(b, axis);
    let move_a_negative = pa.1 - pb.0;
    let move_a_positive = pb.1 - pa.0;
    if move_a_negative < 0 || move_a_positive < 0 {
        return false;
    }
    if move_a_negative <= move_a_positive {
        update_best_axis(best, move_a_negative, axis, source);
    } else {
        update_best_axis(best, move_a_positive, axis.neg(), source);
    }
    true
}

/// First face whose rotated normal is most (or least) aligned with `outward`.
fn supporting_face_exec(normals: &[UnitVector], outward: UnitVector, most: bool) -> (e: usize)
    requires
        normals@.len() >= 1,
        axis_bounded((outward@.0 as int, outward@.1 as int)),
        forall|i: int| 0 <= i < normals@.len() ==> axis_bounded(((#[trigger] normals@[i])@.0 as int, normals@[i]@.1 as int)),
    ensures
        e as int == supporting_face((outward@.0 as int, outward@.1 as int), direction_views(normals@), most, normals@.len() as int),
        e < normals@.len(),
{
    let ghost ns = direction_views(normals@);
    let ghost o = (outward@.0 as int, outward@.1 as int);
    let own = outward.raw();
    let ox = own[0] as i64;
    let oy = own[1] as i64;
    let n = normals.len();
    let mut edge: usize = 0;
    let first = normals[0].raw();
    proof {
        lemma_alignment_bounds(o, ns[0]);
    }
    let mut best = ox * first[0] as i64 + oy * first[1] as i64;
    for index in 1..n
        invariant
            n == normals@.len(),
            ns == direction_views(normals@),
            o == (outward@.0 as int, outward@.1 as int),
            o == (ox as int, oy as int),
            axis_bounded(o),
            forall|i: int| 0 <= i < normals@.len() ==> axis_bounded(((#[trigger] normals@[i])@.0 as int, normals@[i]@.1 as int)),
            edge as int == supporting_face(o, ns, most, index as int),
            edge < index,
            best as int == alignment(o, ns[edge as int]),
    {
        let normal = normals[index].raw();
        proof {
            assert(ns[index as int] == (normals@[index as int]@.0 as int, normals@[index as int]@.1 as int));
            lemma_alignment_bounds(o, ns[index as int]);
        }
        let candidate = ox * normal[0] as i64 + oy * normal[1] as i64;
        if (most && candidate > best) || (!most && candidate < best) {
            edge = index;
            best = candidate;
        }
    }
    edge
}

proof fn lemma_alignment_bounds(a: (int, int), b: (int, int))
    requires
        axis_bounded(a),
        axis_bounded(b),
    ensures
        -0x4200_0000_0000_0000 <= a.0 * b.0 + a.1 * b.1 <= 0x4200_0000_0000_0000,
        -0x2100_0000_0000_0000 <= a.0 * b.0 <= 0x2100_0000_0000_0000,
        -0x2100_0000_0000_0000 <= a.1 * b.1 <= 0x2100_0000_0000_0000,
{
    assert(-0x2100_0000_0000_0000 <= a.0 * b.0 <= 0x2100_0000_0000_0000) by (nonlinear_arith)
        requires -1_518_500_250 <= a.0 <= 1_518_500_250, -1_518_500_250 <= b.0 <= 1_518_500_250;
    assert(-0x2100_0000_0000_0000 <= a.1 * b.1 <= 0x2100_0000_0000_0000) by (nonlinear_arith)
        requires -1_518_500_250 <= a.1 <= 1_518_500_250, -1_518_500_250 <= b.1 <= 1_518_500_250;
}

/// `n / d` rounded to nearest, halves away from zero.
fn div_round_i128(n: i128, d: i128) -> (q: i128)
    requires
        d != 0,
        -0x1_0000_0000_0000_0000_0000 <= n <= 0x1_0000_0000_0000_0000_0000,
        -0x1_0000_0000_0000_0000_0000 <= d <= 0x1_0000_0000_0000_0000_0000,
    ensures
        q as int == div_round(n as int, d as int),
{
    let m = if n < 0 { -n } else { n };
    let e = if d < 0 { -d } else { d };
    let q = (2 * m + e) / (2 * e);
    proof {
        vstd::arithmetic::div_mod::lemma_div_is_ordered_by_denominator((2 * m + e) as int, 1, (2 * e) as int);
        vstd::arithmetic::div_mod::lemma_div_pos_is_pos((2 * m + e) as int, (2 * e) as int);
    }
    if (n < 0) != (d < 0) {
        -q
    } else {
        q
    }
}

/// The point of the segment projecting to `target` on `axis`.
fn point_on_segment_exec(p0: GeometryPoint, p1: GeometryPoint, axis: UnitVector, target: i64) -> (p: GeometryPoint)
    requires
        axis_bounded((axis@.0 as int, axis@.1 as int)),
        -0x2_0000_0000 <= target <= 0x2_0000_0000,
    ensures
        (p@.0 as int, p@.1 as int) == point_on_segment(
            (p0@.0 as int, p0@.1 as int), (p1@.0 as int, p1@.1 as int), (axis@.0 as int, axis@.1 as int), target as int),
{
    let a = project_point(p0, axis);
    let b = project_point(p1, axis);
    if target == a || a == b {
        return p0;
    }
    if target == b {
        return p1;
    }
    let numerator = (target - a) as i128;
    let denominator = (b - a) as i128;
    let s = p0.raw();
    let t = p1.raw();
    let dx = t[0] as i128 - s[0] as i128;
    let dy = t[1] as i128 - s[1] as i128;
    proof {
        assert(-0x10_0000_0000_0000_0000 <= dx * numerator <= 0x10_0000_0000_0000_0000) by (nonlinear_arith)
            requires -0x8000_0000 <= dx <= 0x8000_0000, -0x4_0000_0000 <= numerator <= 0x4_0000_0000;
        assert(-0x10_0000_0000_0000_0000 <= dy * numerator <= 0x10_0000_0000_0000_0000) by (nonlinear_arith)
            requires -0x8000_0000 <= dy <= 0x8000_0000, -0x4_0000_0000 <= numerator <= 0x4_0000_0000;
    }
    let ox = div_round_i128(dx * numerator, denominator);
    let oy = div_round_i128(dy * numerator, denominator);
    proof {
        lemma_div_round_bound(dx * numerator, denominator as int);
        lemma_div_round_bound(dy * numerator, denominator as int);
    }
    let x = s[0] as i128 + ox;
    let y = s[1] as i128 + oy;
    let cx = if x < MIN_POINT as i128 { MIN_POINT as i64 } else if x > MAX_POINT as i128 { MAX_POINT as i64 } else { x as i64 };
    let cy = if y < MIN_POINT as i128 { MIN_POINT as i64 } else if y > MAX_POINT as i128 { MAX_POINT as i64 } else { y as i64 };
    GeometryPoint::from_i64_clamped(cx, cy)
}

proof fn lemma_div_round_bound(n: int, d: int)
    requires
        d != 0,
        -0x10_0000_0000_0000_0000 <= n <= 0x10_0000_0000_0000_0000,
    ensures
        -0x10_0000_0000_0000_0000 <= div_round(n, d) <= 0x10_0000_0000_0000_0000,
{
    let m = if n < 0 { -n } else { n };
    let e = if d < 0 { -d } else { d };
    let q = (2 * m + e) / (2 * e);
    vstd::arithmetic::div_mod::lemma_fundamental_div_mod(2 * m + e, 2 * e);
    vstd::arithmetic::div_mod::lemma_mod_bound(2 * m + e, 2 * e);
    vstd::arithmetic::div_mod::lemma_div_pos_is_pos(2 * m + e, 2 * e);
    assert(q <= m) by (nonlinear_arith)
        requires
            2 * m + e == 2 * e * q + (2 * m + e) % (2 * e),
            (2 * m + e) % (2 * e) >= 0,
            e >= 1,
            m >= 0,
            q >= 0,
    {
        if q > m {
            assert(2 * e * q >= 2 * e * (m + 1));
        }
    }
}

/// Feature of a segment at a projection.
fn segment_feature_exec(p0: GeometryPoint, p1: GeometryPoint, edge: usize, next: usize, axis: UnitVector, target: i64) -> (f: ColliderFeature)
    requires
        axis_bounded((axis@.0 as int, axis@.1 as int)),
        edge < 6,
        next < 6,
    ensures
        f == segment_feature((p0@.0 as int, p0@.1 as int), (p1@.0 as int, p1@.1 as int), edge as int, next as int,
            (axis@.0 as int, axis@.1 as int), target as int),
{
    let a = project_point(p0, axis);
    let b = project_point(p1, axis);
    if a != b && target == a {
        ColliderFeature::ConvexVertex(edge as u8)
    } else if a != b && target == b {
        ColliderFeature::ConvexVertex(next as u8)
    } else {
        ColliderFeature::ConvexEdge(edge as u8)
    }
}

/// Clipping candidate at a tangent projection.
fn clip_candidate_exec(
    reference: &[GeometryPoint],
    re: usize,
    incident: &[GeometryPoint],
    ie: usize,
    tangent: UnitVector,
    outward: UnitVector,
    target: i64,
) -> (c: (GeometryPoint, i64, ColliderFeature, ColliderFeature))
    requires
        3 <= reference@.len() <= 6,
        3 <= incident@.len() <= 6,
        re < reference@.len(),
        ie < incident@.len(),
        axis_bounded((tangent@.0 as int, tangent@.1 as int)),
        axis_bounded((outward@.0 as int, outward@.1 as int)),
        -0x2_0000_0000 <= target <= 0x2_0000_0000,
    ensures
        ({
            let s = clip_candidate(point_views(reference@), re as int, point_views(incident@), ie as int,
                (tangent@.0 as int, tangent@.1 as int), (outward@.0 as int, outward@.1 as int), target as int);
            &&& (c.0@.0 as int, c.0@.1 as int) == s.0
            &&& c.1 as int == s.1
            &&& c.2 == s.2
            &&& c.3 == s.3
        }),
{
    let rn = if re + 1 >= reference.len() { 0 } else { re + 1 };
    let inn = if ie + 1 >= incident.len() { 0 } else { ie + 1 };
    let reference_point = point_on_segment_exec(reference[re], reference[rn], tangent, target);
    let incident_point = point_on_segment_exec(incident[ie], incident[inn], tangent, target);
    proof {
        assert(point_views(reference@)[re as int] == (reference@[re as int]@.0 as int, reference@[re as int]@.1 as int));
        assert(point_views(reference@)[rn as int] == (reference@[rn as int]@.0 as int, reference@[rn as int]@.1 as int));
        assert(point_views(incident@)[ie as int] == (incident@[ie as int]@.0 as int, incident@[ie as int]@.1 as int));
        assert(point_views(incident@)[inn as int] == (incident@[inn as int]@.0 as int, incident@[inn as int]@.1 as int));
    }
    let separation = outward.dot(incident_point.diff(reference_point));
    (
        reference_point.midpoint(incident_point),
        separation,
        segment_feature_exec(reference[re], reference[rn], re, rn, tangent, target),
        segment_feature_exec(incident[ie], incident[inn], ie, inn, tangent, target),
    )
}

/// Separating-axis scan over A's face normals, then B's; `None` when an
/// axis separates the polygons.
fn best_axis(
    vertices_a: &[GeometryPoint],
    vertices_b: &[GeometryPoint],
    normals_a: &[UnitVector],
    normals_b: &[UnitVector],
) -> (r: Option<(u32, UnitVector, AxisSource)>)
    requires
        vertices_a@.len() >= 1,
        vertices_b@.len() >= 1,
        normals_a@.len() >= 1,
        forall|i: int| 0 <= i < normals_a@.len() ==> axis_bounded(((#[trigger] normals_a@[i])@.0 as int, normals_a@[i]@.1 as int)),
        forall|i: int| 0 <= i < normals_b@.len() ==> axis_bounded(((#[trigger] normals_b@[i])@.0 as int, normals_b@[i]@.1 as int)),
    ensures
        ({
            let axes = candidate_axes(direction_views(normals_a@), direction_views(normals_b@));
            let scan = axis_scan(axes, point_views(vertices_a@), point_views(vertices_b@), axes.len() as int);
            &&& r is None <==> !(scan matches Some(Some(_)))
            &&& r matches Some(b) ==> scan == Some(best_view(r)) && axis_bounded((b.1@.0 as int, b.1@.1 as int))
        }),
{
    let ghost na = direction_views(normals_a@);
    let ghost nb = direction_views(normals_b@);
    let ghost va = point_views(vertices_a@);
    let ghost vb = point_views(vertices_b@);
    let ghost axes = candidate_axes(na, nb);
    let na_len = normals_a.len();
    let nb_len = normals_b.len();
    let mut best: Option<(u32, UnitVector, AxisSource)> = None;
    for index in 0..na_len
        invariant
            na_len == normals_a@.len(),
            nb_len == normals_b@.len(),
            na == direction_views(normals_a@),
            nb == direction_views(normals_b@),
            va == point_views(vertices_a@),
            vb == point_views(vertices_b@),
            axes == candidate_axes(na, nb),
            forall|i: int| 0 <= i < normals_a@.len() ==> axis_bounded(((#[trigger] normals_a@[i])@.0 as int, normals_a@[i]@.1 as int)),
            vertices_a@.len() >= 1,
            vertices_b@.len() >= 1,
            axis_scan(axes, va, vb, index as int) == Some(best_view(best)),
            match best {
                Some(b) => axis_bounded((b.1@.0 as int, b.1@.1 as int)),
                None => index == 0,
            },
    {
        proof {
            assert(axes[index as int] == (na[index as int], AxisSource::A));
        }
        if !select_axis_exec(&mut best, normals_a[index], AxisSource::A, vertices_a, vertices_b) {
            proof {
                lemma_axis_scan_stays_none(axes, va, vb, index as int + 1, axes.len() as int);
            }
            return None;
        }
    }
    for index in 0..nb_len
        invariant
            na_len == normals_a@.len(),
            nb_len == normals_b@.len(),
            na_len >= 1,
            na == direction_views(normals_a@),
            nb == direction_views(normals_b@),
            va == point_views(vertices_a@),
            vb == point_views(vertices_b@),
            axes == candidate_axes(na, nb),
            forall|i: int| 0 <= i < normals_b@.len() ==> axis_bounded(((#[trigger] normals_b@[i])@.0 as int, normals_b@[i]@.1 as int)),
            vertices_a@.len() >= 1,
            vertices_b@.len() >= 1,
            axis_scan(axes, va, vb, na_len + index) == Some(best_view(best)),
            match best {
                Some(b) => axis_bounded((b.1@.0 as int, b.1@.1 as int)),
                None => false,
            },
    {
        proof {
            assert(axes[na_len + index] == (nb[index as int], AxisSource::B));
        }
        if !select_axis_exec(&mut best, normals_b[index], AxisSource::B, vertices_a, vertices_b) {
            proof {
                lemma_axis_scan_stays_none(axes, va, vb, na_len + index + 1, axes.len() as int);
            }
            return None;
        }
    }
    best
}

/// Clips the reference face against the incident face along the normal's
/// tangent.
#[verifier::rlimit(80)]
fn clip_faces_exec(
    body_a: BodyId,
    body_b: BodyId,
    reference_vertices: &[GeometryPoint],
    reference_normals: &[UnitVector],
    incident_vertices: &[GeometryPoint],
    incident_normals: &[UnitVector],
    normal: UnitVector,
    outward: UnitVector,
    penetration: u32,
    source: AxisSource,
) -> (m: ContactManifold)
    requires
        3 <= reference_vertices@.len() <= 6,
        3 <= incident_vertices@.len() <= 6,
        reference_normals@.len() == reference_vertices@.len(),
        incident_normals@.len() == incident_vertices@.len(),
        axis_bounded((normal@.0 as int, normal@.1 as int)),
        axis_bounded((outward@.0 as int, outward@.1 as int)),
        forall|i: int| 0 <= i < reference_normals@.len() ==> axis_bounded(((#[trigger] reference_normals@[i])@.0 as int, reference_normals@[i]@.1 as int)),
        forall|i: int| 0 <= i < incident_normals@.len() ==> axis_bounded(((#[trigger] incident_normals@[i])@.0 as int, incident_normals@[i]@.1 as int)),
    ensures
        ({
            let expected = clip_faces(point_views(reference_vertices@), direction_views(reference_normals@),
                point_views(incident_vertices@), direction_views(incident_normals@),
                (normal@.0 as int, normal@.1 as int), (outward@.0 as int, outward@.1 as int), penetration as int, source);
            &&& contact_matches(m.first, body_a, body_b, expected.0)
            &&& match (m.second, expected.1) {
                (Some(c), Some(d)) => contact_matches(c, body_a, body_b, d),
                (None, None) => true,
                _ => false,
            }
        }),
{
    let tangent = normal.perpendicular();
    let re = supporting_face_exec(reference_normals, outward, true);
    let ie = supporting_face_exec(incident_normals, outward, false);
    let rn = if re + 1 >= reference_vertices.len() { 0 } else { re + 1 };
    let inn = if ie + 1 >= incident_vertices.len() { 0 } else { ie + 1 };
    let r0 = project_point(reference_vertices[re], tangent);
    let r1 = project_point(reference_vertices[rn], tangent);
    let i0 = project_point(incident_vertices[ie], tangent);
    let i1 = project_point(incident_vertices[inn], tangent);
    proof {
        let rv = point_views(reference_vertices@);
        let iv = point_views(incident_vertices@);
        assert(rv[re as int] == (reference_vertices@[re as int]@.0 as int, reference_vertices@[re as int]@.1 as int));
        assert(rv[rn as int] == (reference_vertices@[rn as int]@.0 as int, reference_vertices@[rn as int]@.1 as int));
        assert(iv[ie as int] == (incident_vertices@[ie as int]@.0 as int, incident_vertices@[ie as int]@.1 as int));
        assert(iv[inn as int] == (incident_vertices@[inn as int]@.0 as int, incident_vertices@[inn as int]@.1 as int));
    }
    let reference_min = if r0 < r1 { r0 } else { r1 };
    let reference_max = if r0 < r1 { r1 } else { r0 };
    let incident_min = if i0 < i1 { i0 } else { i1 };
    let incident_max = if i0 < i1 { i1 } else { i0 };
    let tangent_min = if reference_min > incident_min { reference_min } else { incident_min };
    let tangent_max = if reference_max < incident_max { reference_max } else { incident_max };
    let length = Length::from_raw_saturating(penetration);
    if tangent_min > tangent_max {
        let c = clip_candidate_exec(reference_vertices, re, incident_vertices, ie, tangent, outward, (tangent_min + tangent_max) / 2);
        return ContactManifold::one(make_contact(body_a, body_b, c, normal, length, source));
    }
    let first = clip_candidate_exec(reference_vertices, re, incident_vertices, ie, tangent, outward, tangent_min);
    if tangent_min == tangent_max {
        return ContactManifold::one(make_contact(body_a, body_b, first, normal, length, source));
    }
    let second = clip_candidate_exec(reference_vertices, re, incident_vertices, ie, tangent, outward, tangent_max);
    if first.1 <= MANIFOLD_SLOP_RAW && second.1 <= MANIFOLD_SLOP_RAW {
        ContactManifold::two(
            make_contact(body_a, body_b, first, normal, length, source),
            make_contact(body_a, body_b, second, normal, length, source),
        )
    } else if first.1 <= second.1 {
        ContactManifold::one(make_contact(body_a, body_b, first, normal, length, source))
    } else {
        ContactManifold::one(make_contact(body_a, body_b, second, normal, length, source))
    }
}

/// Narrow-phase manifold of two convex polygons placed by their transforms.
///
/// Separating axes are the faces' normals; the least-overlap axis gives the
/// normal (from A to B) and penetration, and the faces most facing each
/// other along it are clipped to keep both ends of their overlap when both
/// lie within the manifold slop.
pub fn collide(
    body_a: BodyId,
    convex_a: Convex,
    transform_a: Transform,
    body_b: BodyId,
    convex_b: Convex,
    transform_b: Transform,
) -> (r: Option<ContactManifold>)
    ensures
        ({
            let va = transformed_points(convex_a@.0, transform_a);
            let na = rotated_normals(convex_a@.1, transform_a);
            let vb = transformed_points(convex_b@.0, transform_b);
            let nb = rotated_normals(convex_b@.1, transform_b);
            let m = convex_manifold(va, na, vb, nb);
            &&& r is Some <==> m is Some
            &&& r matches Some(manifold) ==> {
                let expected = m->0;
                &&& contact_matches(manifold.first, body_a, body_b, expected.0)
                &&& match (manifold.second, expected.1) {
                    (Some(c), Some(d)) => contact_matches(c, body_a, body_b, d),
                    (None, None) => true,
                    _ => false,
                }
            }
        }),
{
    let transformed_a = convex_a.transformed_vertices(transform_a);
    let transformed_b = convex_b.transformed_vertices(transform_b);
    let vertices_a = transformed_a.as_slice();
    let vertices_b = transformed_b.as_slice();
    let local_a = convex_a.normals();
    let local_b = convex_b.normals();
    let normals_a = rotate_all(&local_a, transform_a);
    let normals_b = rotate_all(&local_b, transform_b);
    proof {
        assert(direction_views(local_a@) =~= convex_a@.1);
        assert(direction_views(local_b@) =~= convex_b@.1);
        assert(point_views(vertices_a@) =~= transformed_points(convex_a@.0, transform_a));
        assert(point_views(vertices_b@) =~= transformed_points(convex_b@.0, transform_b));
    }
    let chosen = match best_axis(vertices_a, vertices_b, normals_a.as_slice(), normals_b.as_slice()) {
        Some(b) => b,
        None => {
            return None;
        },
    };
    let manifold = match chosen.2 {
        AxisSource::A => clip_faces_exec(body_a, body_b, vertices_a, normals_a.as_slice(), vertices_b, normals_b.as_slice(),
            chosen.1, chosen.1, chosen.0, AxisSource::A),
        AxisSource::B => clip_faces_exec(body_a, body_b, vertices_b, normals_b.as_slice(), vertices_a, normals_a.as_slice(),
            chosen.1, chosen.1.neg(), chosen.0, AxisSource::B),
    };
    Some(manifold)
}

fn make_contact(
    body_a: BodyId,
    body_b: BodyId,
    candidate: (GeometryPoint, i64, ColliderFeature, ColliderFeature),
    normal: UnitVector,
    penetration: Length,
    source: AxisSource,
) -> (c: Contact)
    ensures
        c.body_a == body_a,
        c.body_b == body_b,
        c.point == candidate.0,
        c.normal == normal,
        c.penetration == penetration,
        c.feature_a == (match source { AxisSource::A => candidate.2, AxisSource::B => candidate.3 }),
        c.feature_b == (match source { AxisSource::A => candidate.3, AxisSource::B => candidate.2 }),
        c.part_a is None,
        c.part_b is None,
{
    let (feature_a, feature_b) = match source {
        AxisSource::A => (candidate.2, candidate.3),
        AxisSource::B => (candidate.3, candidate.2),
    };
    Contact {
        body_a,
        body_b,
        point: candidate.0,
        normal,
        penetration,
        feature_a,
        feature_b,
        part_a: None,
        part_b: None,
    }
}

/// Once an axis separates, the scan stays separated.
proof fn lemma_axis_scan_stays_none(axes: Seq<((int, int), AxisSource)>, a: Seq<(int, int)>, b: Seq<(int, int)>, k: int, m: int)
    requires
        axis_scan(axes, a, b, k) is None,
        1 <= k <= m,
    ensures
        axis_scan(axes, a, b, m) is None,
    decreases m - k,
{
    if k < m {
        lemma_axis_scan_stays_none(axes, a, b, k, m - 1);
    }
}

/// Local face normals rotated into world space.
fn rotate_all(normals: &Vec<UnitVector>, transform: Transform) -> (r: Vec<UnitVector>)
    requires
        forall|i: int| 0 <= i < normals@.len() ==> -0x4000_0000 <= (#[trigger] normals@[i])@.0 <= 0x4000_0000
            && -0x4000_0000 <= normals@[i]@.1 <= 0x4000_0000,
    ensures
        r@.len() == normals@.len(),
        direction_views(r@) == rotated_normals(direction_views(normals@), transform),
        forall|i: int| 0 <= i < r@.len() ==> axis_bounded(((#[trigger] r@[i])@.0 as int, r@[i]@.1 as int)),
{
    let mut out: Vec<UnitVector> = Vec::new();
    for i in 0..normals.len()
        invariant
            forall|j: int| 0 <= j < normals@.len() ==> -0x4000_0000 <= (#[trigger] normals@[j])@.0 <= 0x4000_0000
                && -0x4000_0000 <= normals@[j]@.1 <= 0x4000_0000,
            out@.len() == i,
            forall|j: int| 0 <= j < i ==> ((#[trigger] out@[j])@.0 as int, out@[j]@.1 as int)
                == rotated_normals(direction_views(normals@), transform)[j],
            forall|j: int| 0 <= j < i ==> axis_bounded(((#[trigger] out@[j])@.0 as int, out@[j]@.1 as int)),
    {
        out.push(normals[i].rotate(transform.angle));
    }
    assert(direction_views(out@) =~= rotated_normals(direction_views(normals@), transform));
    out
}

} // verus!
