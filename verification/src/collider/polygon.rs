//! Mathematical model of a polygon given as a cyclic sequence of integer
//! points, and the facts about strict convexity that the convex collider
//! relies on.

use vstd::prelude::*;

verus! {

/// `a - b`.
pub open spec fn pt_sub(a: (int, int), b: (int, int)) -> (int, int) {
    (a.0 - b.0, a.1 - b.1)
}

/// Two-dimensional cross product `a × b`.
pub open spec fn pt_cross(a: (int, int), b: (int, int)) -> int {
    a.0 * b.1 - a.1 * b.0
}

/// Dot product `a · b`.
pub open spec fn pt_dot(a: (int, int), b: (int, int)) -> int {
    a.0 * b.0 + a.1 * b.1
}

/// Index after `i` in a cycle of `n` points.
pub open spec fn next_index(n: int, i: int) -> int {
    if i + 1 >= n { 0 } else { i + 1 }
}

/// `j` reduced into `0..n`, for `0 <= j < 2n`.
pub open spec fn wrap(n: int, j: int) -> int {
    if j >= n { j - n } else { j }
}

/// Turn at the corner that starts at vertex `i`:
/// `(u[i+1] - u[i]) × (u[i+2] - u[i+1])`.
pub open spec fn corner_cross(u: Seq<(int, int)>, i: int) -> int {
    let n = u.len() as int;
    let b = next_index(n, i);
    let c = next_index(n, b);
    pt_cross(pt_sub(u[b], u[i]), pt_sub(u[c], u[b]))
}

/// Side of vertex `v` relative to the directed edge that starts at `e`:
/// `(u[e+1] - u[e]) × (u[v] - u[e])`, positive on the left.
pub open spec fn side_cross(u: Seq<(int, int)>, e: int, v: int) -> int {
    let n = u.len() as int;
    pt_cross(pt_sub(u[next_index(n, e)], u[e]), pt_sub(u[v], u[e]))
}

/// Vertex `v` is not an endpoint of edge `e`.
pub open spec fn off_edge(n: int, e: int, v: int) -> bool {
    v != e && v != next_index(n, e)
}

/// Every vertex lies strictly to the left of every edge it is not part of:
/// the polygon is strictly convex and counter-clockwise.
pub open spec fn strictly_convex_ccw(u: Seq<(int, int)>) -> bool {
    &&& u.len() >= 3
    &&& forall|e: int, v: int|
        #![trigger side_cross(u, e, v)]
        0 <= e < u.len() && 0 <= v < u.len() && off_edge(u.len() as int, e, v)
            ==> side_cross(u, e, v) > 0
}

/// Every vertex lies strictly on the `positive` side of every edge it is not
/// part of.
pub open spec fn strictly_convex_with(u: Seq<(int, int)>, positive: bool) -> bool {
    &&& u.len() >= 3
    &&& forall|e: int, v: int|
        #![trigger side_cross(u, e, v)]
        0 <= e < u.len() && 0 <= v < u.len() && off_edge(u.len() as int, e, v)
            ==> side_cross(u, e, v) != 0 && (side_cross(u, e, v) > 0) == positive
}

/// No point occurs twice.
pub open spec fn distinct_points(u: Seq<(int, int)>) -> bool {
    forall|i: int, j: int| 0 <= i < j < u.len() ==> u[i] != u[j]
}

/// The cycle started at index `k`.
pub open spec fn rotate_seq(u: Seq<(int, int)>, k: int) -> Seq<(int, int)> {
    Seq::new(u.len(), |i: int| u[wrap(u.len() as int, i + k)])
}

/// The cycle walked backwards.
pub open spec fn reverse_seq(u: Seq<(int, int)>) -> Seq<(int, int)> {
    Seq::new(u.len(), |i: int| u[u.len() - 1 - i])
}

/// `(a.0, a.1) < (b.0, b.1)` lexicographically.
pub open spec fn lex_less(a: (int, int), b: (int, int)) -> bool {
    a.0 < b.0 || (a.0 == b.0 && a.1 < b.1)
}

/// Index of the first lexicographically smallest point among `u[0..i]`.
pub open spec fn min_index_upto(u: Seq<(int, int)>, i: int) -> int
    decreases i,
{
    if i <= 1 {
        0
    } else {
        let m = min_index_upto(u, i - 1);
        if lex_less(u[i - 1], u[m]) { i - 1 } else { m }
    }
}

/// Index of the first lexicographically smallest point.
pub open spec fn min_index(u: Seq<(int, int)>) -> int {
    min_index_upto(u, u.len() as int)
}

/// The canonical cycle: counter-clockwise, starting at the smallest point.
pub open spec fn canonical_cycle(u: Seq<(int, int)>, positive: bool) -> Seq<(int, int)> {
    let w = if positive { u } else { reverse_seq(u) };
    rotate_seq(w, min_index(w))
}

/// Twice the signed area: `Σ u[i] × u[i+1]`.
pub open spec fn twice_area_upto(u: Seq<(int, int)>, k: int) -> int
    decreases k,
{
    if k <= 0 {
        0
    } else {
        twice_area_upto(u, k - 1) + pt_cross(u[k - 1], u[next_index(u.len() as int, k - 1)])
    }
}

/// Edge term of the second moment of area about the origin:
/// `(a × b) (a·a + a·b + b·b)`.
pub open spec fn inertia_term(a: (int, int), b: (int, int)) -> int {
    pt_cross(a, b) * (pt_dot(a, a) + pt_dot(a, b) + pt_dot(b, b))
}

/// `Σ inertia_term(u[i], u[i+1])`, twelve times the polar second moment.
pub open spec fn inertia_sum_upto(u: Seq<(int, int)>, k: int) -> int
    decreases k,
{
    if k <= 0 {
        0
    } else {
        inertia_sum_upto(u, k - 1) + inertia_term(u[k - 1], u[next_index(u.len() as int, k - 1)])
    }
}

/// `cross(a - b, c - b) == -cross(b - a, c - a)`.
pub proof fn lemma_cross_reversed_edge(a: (int, int), b: (int, int), c: (int, int))
    ensures
        pt_cross(pt_sub(a, b), pt_sub(c, b)) == -pt_cross(pt_sub(b, a), pt_sub(c, a)),
{
    assert(pt_cross(pt_sub(a, b), pt_sub(c, b)) == -pt_cross(pt_sub(b, a), pt_sub(c, a))) by (nonlinear_arith);
}

/// The corner turn at `i` is the side of vertex `i + 2` to edge `i`.
pub proof fn lemma_corner_is_side(u: Seq<(int, int)>, i: int)
    requires
        0 <= i < u.len(),
    ensures
        corner_cross(u, i) == side_cross(u, i, next_index(u.len() as int, next_index(u.len() as int, i))),
{
    let n = u.len() as int;
    let a = u[i];
    let b = u[next_index(n, i)];
    let c = u[next_index(n, next_index(n, i))];
    assert(pt_cross(pt_sub(b, a), pt_sub(c, b)) == pt_cross(pt_sub(b, a), pt_sub(c, a))) by (nonlinear_arith);
}

/// Sides of a rotated cycle are sides of the original at shifted indices.
pub proof fn lemma_side_rotate(u: Seq<(int, int)>, k: int, e: int, v: int)
    requires
        u.len() >= 3,
        0 <= k < u.len(),
        0 <= e < u.len(),
        0 <= v < u.len(),
    ensures
        side_cross(rotate_seq(u, k), e, v) == side_cross(u, wrap(u.len() as int, e + k), wrap(u.len() as int, v + k)),
        off_edge(u.len() as int, e, v) == off_edge(u.len() as int, wrap(u.len() as int, e + k), wrap(u.len() as int, v + k)),
{
    let n = u.len() as int;
    let r = rotate_seq(u, k);
    assert(wrap(n, next_index(n, e) + k) == next_index(n, wrap(n, e + k)));
    assert(r[next_index(n, e)] == u[wrap(n, next_index(n, e) + k)]);
}

/// Sides of a reversed cycle are negated sides of the original.
pub proof fn lemma_side_reverse(u: Seq<(int, int)>, e: int, v: int)
    requires
        u.len() >= 3,
        0 <= e < u.len(),
        0 <= v < u.len(),
    ensures
        ({
            let n = u.len() as int;
            let e2 = if e == n - 1 { n - 1 } else { n - 2 - e };
            &&& side_cross(reverse_seq(u), e, v) == -side_cross(u, e2, n - 1 - v)
            &&& off_edge(n, e, v) == off_edge(n, e2, n - 1 - v)
            &&& 0 <= e2 < n
        }),
{
    let n = u.len() as int;
    let r = reverse_seq(u);
    let e2 = if e == n - 1 { n - 1 } else { n - 2 - e };
    assert(r[e] == u[next_index(n, e2)]);
    assert(r[next_index(n, e)] == u[e2]);
    assert(r[v] == u[n - 1 - v]);
    lemma_cross_reversed_edge(u[e2], u[next_index(n, e2)], u[n - 1 - v]);
}

/// Rotation keeps strict convexity with the same orientation.
pub proof fn lemma_convex_rotate(u: Seq<(int, int)>, k: int, positive: bool)
    requires
        strictly_convex_with(u, positive),
        0 <= k < u.len(),
    ensures
        strictly_convex_with(rotate_seq(u, k), positive),
{
    let n = u.len() as int;
    let r = rotate_seq(u, k);
    assert forall|e: int, v: int|
        #![trigger side_cross(r, e, v)]
        0 <= e < n && 0 <= v < n && off_edge(n, e, v) implies side_cross(r, e, v) != 0
            && (side_cross(r, e, v) > 0) == positive by {
        lemma_side_rotate(u, k, e, v);
        assert(side_cross(u, wrap(n, e + k), wrap(n, v + k)) != 0);
    }
}

/// Reversal keeps strict convexity with the opposite orientation.
pub proof fn lemma_convex_reverse(u: Seq<(int, int)>, positive: bool)
    requires
        strictly_convex_with(u, positive),
    ensures
        strictly_convex_with(reverse_seq(u), !positive),
{
    let n = u.len() as int;
    let r = reverse_seq(u);
    assert forall|e: int, v: int|
        #![trigger side_cross(r, e, v)]
        0 <= e < n && 0 <= v < n && off_edge(n, e, v) implies side_cross(r, e, v) != 0
            && (side_cross(r, e, v) > 0) == !positive by {
        lemma_side_reverse(u, e, v);
        let e2 = if e == n - 1 { n - 1 } else { n - 2 - e };
        assert(side_cross(u, e2, n - 1 - v) != 0);
    }
}

/// Rotation and reversal keep points distinct.
pub proof fn lemma_distinct_rotate_reverse(u: Seq<(int, int)>, k: int)
    requires
        distinct_points(u),
        0 <= k < u.len(),
    ensures
        distinct_points(rotate_seq(u, k)),
        distinct_points(reverse_seq(u)),
{
    let n = u.len() as int;
    let r = rotate_seq(u, k);
    assert forall|i: int, j: int| 0 <= i < j < n implies r[i] != r[j] by {
        let a = wrap(n, i + k);
        let b = wrap(n, j + k);
        if a < b {
            assert(u[a] != u[b]);
        } else {
            assert(u[b] != u[a]);
        }
    }
    let s = reverse_seq(u);
    assert forall|i: int, j: int| 0 <= i < j < n implies s[i] != s[j] by {
        assert(u[n - 1 - j] != u[n - 1 - i]);
    }
}

/// The first minimum among `u[0..i]` is within range and no earlier or later
/// point in the prefix is smaller.
pub proof fn lemma_min_index_upto(u: Seq<(int, int)>, i: int)
    requires
        1 <= i <= u.len(),
    ensures
        0 <= min_index_upto(u, i) < i,
        forall|j: int| 0 <= j < i ==> !lex_less(#[trigger] u[j], u[min_index_upto(u, i)]),
    decreases i,
{
    if i > 1 {
        lemma_min_index_upto(u, i - 1);
    }
}

/// With distinct points, the canonical start is strictly smallest.
pub proof fn lemma_min_index_strict(u: Seq<(int, int)>)
    requires
        u.len() >= 1,
        distinct_points(u),
    ensures
        0 <= min_index(u) < u.len(),
        forall|j: int| 0 <= j < u.len() && j != min_index(u) ==> lex_less(u[min_index(u)], #[trigger] u[j]),
{
    let n = u.len() as int;
    lemma_min_index_upto(u, n);
    let m = min_index(u);
    assert forall|j: int| 0 <= j < n && j != m implies lex_less(u[m], #[trigger] u[j]) by {
        assert(!lex_less(u[j], u[m]));
        if j < m {
            assert(u[j] != u[m]);
        } else {
            assert(u[m] != u[j]);
        }
    }
}

/// The canonical cycle of a strictly convex polygon is strictly convex and
/// counter-clockwise, with its points distinct.
pub proof fn lemma_canonical_convex(u: Seq<(int, int)>, positive: bool)
    requires
        strictly_convex_with(u, positive),
        distinct_points(u),
    ensures
        strictly_convex_ccw(canonical_cycle(u, positive)),
        distinct_points(canonical_cycle(u, positive)),
        canonical_cycle(u, positive).len() == u.len(),
{
    let w = if positive { u } else { reverse_seq(u) };
    if !positive {
        lemma_convex_reverse(u, positive);
    }
    lemma_distinct_rotate_reverse(u, 0);
    lemma_min_index_strict(w);
    lemma_convex_rotate(w, min_index(w), true);
    lemma_distinct_rotate_reverse(w, min_index(w));
    let c = canonical_cycle(u, positive);
    assert forall|e: int, v: int|
        #![trigger side_cross(c, e, v)]
        0 <= e < c.len() && 0 <= v < c.len() && off_edge(c.len() as int, e, v) implies side_cross(c, e, v) > 0 by {
        assert(side_cross(c, e, v) != 0 && (side_cross(c, e, v) > 0) == true);
    }
}

/// Fan sum of triangle areas from vertex `0`:
/// `Σ_{1 <= i < k} (u[i] - u[0]) × (u[i+1] - u[0])`.
pub open spec fn fan_area_upto(u: Seq<(int, int)>, k: int) -> int
    decreases k,
{
    if k <= 1 {
        0
    } else {
        fan_area_upto(u, k - 1) + pt_cross(pt_sub(u[k - 1], u[0]), pt_sub(u[k], u[0]))
    }
}

/// Twelve times the polar second moment of the triangle `(p, q, r)`.
pub open spec fn triangle_inertia(p: (int, int), q: (int, int), r: (int, int)) -> int {
    inertia_term(p, q) + inertia_term(q, r) + inertia_term(r, p)
}

/// Fan sum of triangle moments from vertex `0`.
pub open spec fn fan_inertia_upto(u: Seq<(int, int)>, k: int) -> int
    decreases k,
{
    if k <= 1 {
        0
    } else {
        fan_inertia_upto(u, k - 1) + triangle_inertia(u[0], u[k - 1], u[k])
    }
}

proof fn lemma_fan_area_step(a: (int, int), b: (int, int), c: (int, int))
    ensures
        pt_cross(b, c) == pt_cross(pt_sub(b, a), pt_sub(c, a)) + pt_cross(a, c) - pt_cross(a, b),
        pt_cross(pt_sub(b, a), pt_sub(c, a)) == pt_cross(pt_sub(c, b), pt_sub(a, b)),
        pt_cross(a, b) == -pt_cross(b, a),
{
    assert(pt_cross(b, c) == pt_cross(pt_sub(b, a), pt_sub(c, a)) + pt_cross(a, c) - pt_cross(a, b)) by (nonlinear_arith);
    assert(pt_cross(pt_sub(b, a), pt_sub(c, a)) == pt_cross(pt_sub(c, b), pt_sub(a, b))) by (nonlinear_arith);
    assert(pt_cross(a, b) == -pt_cross(b, a)) by (nonlinear_arith);
}

proof fn lemma_inertia_term_antisymmetric(a: (int, int), b: (int, int))
    ensures
        inertia_term(a, b) == -inertia_term(b, a),
{
    assert(pt_cross(a, b) == -pt_cross(b, a)) by (nonlinear_arith);
    assert(pt_dot(a, b) == pt_dot(b, a)) by (nonlinear_arith);
    let q = pt_dot(a, a) + pt_dot(a, b) + pt_dot(b, b);
    assert(q == pt_dot(b, b) + pt_dot(b, a) + pt_dot(a, a));
    assert(pt_cross(a, b) * q == -(pt_cross(b, a) * q)) by (nonlinear_arith)
        requires pt_cross(a, b) == -pt_cross(b, a);
}

/// `cross(p, q) r + cross(q, r) p + cross(r, p) q == 0`, per component.
proof fn lemma_cross_cycle_component(px: int, py: int, qx: int, qy: int, rx: int, ry: int)
    ensures
        (px * qy - py * qx) * ry + (qx * ry - qy * rx) * py + (rx * py - ry * px) * qy == 0,
        (px * qy - py * qx) * rx + (qx * ry - qy * rx) * px + (rx * py - ry * px) * qx == 0,
{
    assert((px * qy - py * qx) * ry + (qx * ry - qy * rx) * py + (rx * py - ry * px) * qy == 0) by (nonlinear_arith);
    assert((px * qy - py * qx) * rx + (qx * ry - qy * rx) * px + (rx * py - ry * px) * qx == 0) by (nonlinear_arith);
}

/// The three-edge moment sum of a triangle factors as its doubled area times
/// a sum of squares.
proof fn lemma_triangle_inertia_factor(p: (int, int), q: (int, int), r: (int, int))
    ensures
        triangle_inertia(p, q, r) == pt_cross(pt_sub(q, p), pt_sub(r, p)) * (pt_dot(p, p) + pt_dot(q, q)
            + pt_dot(r, r) + pt_dot(p, q) + pt_dot(q, r) + pt_dot(r, p)),
{
    let (px, py, qx, qy, rx, ry) = (p.0, p.1, q.0, q.1, r.0, r.1);
    let xpq = pt_cross(p, q);
    let xqr = pt_cross(q, r);
    let xrp = pt_cross(r, p);
    let pp = pt_dot(p, p);
    let qq = pt_dot(q, q);
    let rr = pt_dot(r, r);
    let dpq = pt_dot(p, q);
    let dqr = pt_dot(q, r);
    let drp = pt_dot(r, p);
    let c = pt_cross(pt_sub(q, p), pt_sub(r, p));
    let total = pp + qq + rr + dpq + dqr + drp;
    let (sx, sy) = (px + qx + rx, py + qy + ry);
    assert(c == xpq + xqr + xrp) by (nonlinear_arith)
        requires
            c == (qx - px) * (ry - py) - (qy - py) * (rx - px),
            xpq == px * qy - py * qx,
            xqr == qx * ry - qy * rx,
            xrp == rx * py - ry * px,
    ;
    assert(pt_dot(r, p) == pt_dot(p, r)) by (nonlinear_arith);
    let tri = xpq * (pp + dpq + qq) + xqr * (qq + dqr + rr) + xrp * (rr + drp + pp);
    assert(triangle_inertia(p, q, r) == tri);
    let rest = xpq * (rr + dqr + drp) + xqr * (pp + dpq + drp) + xrp * (qq + dpq + dqr);
    assert(xpq * (pp + dpq + qq) + xpq * (rr + dqr + drp) == xpq * total) by (nonlinear_arith)
        requires total == pp + qq + rr + dpq + dqr + drp;
    assert(xqr * (qq + dqr + rr) + xqr * (pp + dpq + drp) == xqr * total) by (nonlinear_arith)
        requires total == pp + qq + rr + dpq + dqr + drp;
    assert(xrp * (rr + drp + pp) + xrp * (qq + dpq + dqr) == xrp * total) by (nonlinear_arith)
        requires total == pp + qq + rr + dpq + dqr + drp;
    assert((xpq + xqr + xrp) * total == xpq * total + xqr * total + xrp * total) by (nonlinear_arith);
    assert(c * total == tri + rest);
    assert(rr + dqr + drp == rx * sx + ry * sy) by (nonlinear_arith)
        requires
            rr == rx * rx + ry * ry, dqr == qx * rx + qy * ry, drp == rx * px + ry * py,
            sx == px + qx + rx, sy == py + qy + ry,
    ;
    assert(pp + dpq + drp == px * sx + py * sy) by (nonlinear_arith)
        requires
            pp == px * px + py * py, dpq == px * qx + py * qy, drp == rx * px + ry * py,
            sx == px + qx + rx, sy == py + qy + ry,
    ;
    assert(qq + dpq + dqr == qx * sx + qy * sy) by (nonlinear_arith)
        requires
            qq == qx * qx + qy * qy, dpq == px * qx + py * qy, dqr == qx * rx + qy * ry,
            sx == px + qx + rx, sy == py + qy + ry,
    ;
    lemma_cross_cycle_component(px, py, qx, qy, rx, ry);
    let m1 = xpq * rx;
    let m2 = xpq * ry;
    let m3 = xqr * px;
    let m4 = xqr * py;
    let m5 = xrp * qx;
    let m6 = xrp * qy;
    assert(xpq * (rx * sx + ry * sy) == m1 * sx + m2 * sy) by (nonlinear_arith)
        requires m1 == xpq * rx, m2 == xpq * ry;
    assert(xqr * (px * sx + py * sy) == m3 * sx + m4 * sy) by (nonlinear_arith)
        requires m3 == xqr * px, m4 == xqr * py;
    assert(xrp * (qx * sx + qy * sy) == m5 * sx + m6 * sy) by (nonlinear_arith)
        requires m5 == xrp * qx, m6 == xrp * qy;
    assert(m1 * sx + m3 * sx + m5 * sx == (m1 + m3 + m5) * sx) by (nonlinear_arith);
    assert(m2 * sy + m4 * sy + m6 * sy == (m2 + m4 + m6) * sy) by (nonlinear_arith);
    assert(rest == 0);
}

/// A positively oriented triangle has a positive second moment about any origin.
proof fn lemma_triangle_inertia_positive(p: (int, int), q: (int, int), r: (int, int))
    requires
        pt_cross(pt_sub(q, p), pt_sub(r, p)) > 0,
    ensures
        triangle_inertia(p, q, r) > 0,
{
    lemma_triangle_inertia_factor(p, q, r);
    let (px, py, qx, qy, rx, ry) = (p.0, p.1, q.0, q.1, r.0, r.1);
    let c = pt_cross(pt_sub(q, p), pt_sub(r, p));
    let s = pt_dot(p, p) + pt_dot(q, q) + pt_dot(r, r) + pt_dot(p, q) + pt_dot(q, r) + pt_dot(r, p);
    let (sx, sy) = (px + qx, py + qy);
    let (tx, ty) = (qx + rx, qy + ry);
    let (wx, wy) = (rx + px, ry + py);
    assert(2 * s == sx * sx + sy * sy + tx * tx + ty * ty + wx * wx + wy * wy) by (nonlinear_arith)
        requires
            s == (px * px + py * py) + (qx * qx + qy * qy) + (rx * rx + ry * ry)
                + (px * qx + py * qy) + (qx * rx + qy * ry) + (rx * px + ry * py),
            sx == px + qx, sy == py + qy,
            tx == qx + rx, ty == qy + ry,
            wx == rx + px, wy == ry + py,
    ;
    if s <= 0 {
        assert(sx * sx >= 0 && sy * sy >= 0 && tx * tx >= 0 && ty * ty >= 0 && wx * wx >= 0 && wy * wy >= 0) by (nonlinear_arith);
        assert(sx * sx == 0 && sy * sy == 0 && tx * tx == 0 && ty * ty == 0 && wx * wx == 0 && wy * wy == 0);
        assert(sx == 0 && sy == 0 && tx == 0 && ty == 0 && wx == 0 && wy == 0) by (nonlinear_arith)
            requires sx * sx == 0 && sy * sy == 0 && tx * tx == 0 && ty * ty == 0 && wx * wx == 0 && wy * wy == 0;
        assert(c == 0) by (nonlinear_arith)
            requires
                px + qx == 0, py + qy == 0, qx + rx == 0, qy + ry == 0, rx + px == 0, ry + py == 0,
                c == (qx - px) * (ry - py) - (qy - py) * (rx - px),
        ;
    }
    assert(c * s > 0) by (nonlinear_arith)
        requires c > 0, s > 0;
}

proof fn lemma_fan_prefix(u: Seq<(int, int)>, k: int)
    requires
        u.len() >= 3,
        1 <= k <= u.len() - 1,
    ensures
        twice_area_upto(u, k) == fan_area_upto(u, k) + pt_cross(u[0], u[k]),
        inertia_sum_upto(u, k) == fan_inertia_upto(u, k) + inertia_term(u[0], u[k]),
    decreases k,
{
    let n = u.len() as int;
    if k == 1 {
        assert(next_index(n, 0) == 1);
        assert(twice_area_upto(u, 0) == 0);
        assert(inertia_sum_upto(u, 0) == 0);
    } else {
        lemma_fan_prefix(u, k - 1);
        assert(next_index(n, k - 1) == k);
        lemma_fan_area_step(u[0], u[k - 1], u[k]);
        lemma_inertia_term_antisymmetric(u[k], u[0]);
    }
}

/// Twice the area of a strictly convex counter-clockwise polygon and its
/// second-moment sum are both positive.
pub proof fn lemma_convex_area_and_inertia_positive(u: Seq<(int, int)>)
    requires
        strictly_convex_ccw(u),
    ensures
        twice_area_upto(u, u.len() as int) > 0,
        inertia_sum_upto(u, u.len() as int) > 0,
{
    let n = u.len() as int;
    lemma_fan_prefix(u, n - 1);
    assert(next_index(n, n - 1) == 0);
    lemma_fan_area_step(u[0], u[n - 1], u[0]);
    lemma_inertia_term_antisymmetric(u[n - 1], u[0]);
    lemma_fan_positive(u, n - 1);
}

proof fn lemma_fan_positive(u: Seq<(int, int)>, k: int)
    requires
        strictly_convex_ccw(u),
        2 <= k <= u.len() - 1,
    ensures
        fan_area_upto(u, k) > 0,
        fan_inertia_upto(u, k) > 0,
    decreases k,
{
    let n = u.len() as int;
    let i = k - 1;
    assert(next_index(n, i) == k);
    assert(off_edge(n, i, 0));
    assert(side_cross(u, i, 0) > 0);
    lemma_fan_area_step(u[0], u[i], u[k]);
    lemma_triangle_inertia_positive(u[0], u[i], u[k]);
    if k > 2 {
        lemma_fan_positive(u, k - 1);
    } else {
        assert(fan_area_upto(u, 1) == 0);
        assert(fan_inertia_upto(u, 1) == 0);
    }
}

} // verus!
