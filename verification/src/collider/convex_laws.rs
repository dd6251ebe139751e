//! Laws of convex construction: the stored polygon depends only on the
//! cycle of vertices, not on where the list starts or which way it winds.

use vstd::prelude::*;

use crate::quantity::position::Position;
use super::convex::{
    Convex, ConvexError, convex_outcome, corner_scan, has_duplicate, has_vertex_outside, packable,
    quantized_points, side_scan, validation,
};
use super::polygon::{
    canonical_cycle, corner_cross, distinct_points, lemma_convex_reverse, lemma_convex_rotate,
    lemma_corner_is_side, lemma_distinct_rotate_reverse, lemma_min_index_strict, lex_less,
    min_index, next_index, off_edge, reverse_seq, rotate_seq, side_cross, strictly_convex_with,
    wrap,
};
use super::convex::lemma_validation_convex;

verus! {

/// The vertex list started at index `k`.
pub open spec fn rotate_positions(s: Seq<Position>, k: int) -> Seq<Position> {
    Seq::new(s.len(), |i: int| s[wrap(s.len() as int, i + k)])
}

/// The vertex list in opposite order.
pub open spec fn reverse_positions(s: Seq<Position>) -> Seq<Position> {
    Seq::new(s.len(), |i: int| s[s.len() - 1 - i])
}

proof fn lemma_corner_scan_none(u: Seq<(int, int)>, i: int)
    requires
        strictly_convex_with(u, corner_cross(u, 0) > 0),
        0 <= i,
    ensures
        corner_scan(u, i) is None,
    decreases u.len() - i,
{
    let n = u.len() as int;
    if i < n {
        lemma_corner_is_side(u, i);
        lemma_corner_is_side(u, 0);
        let c = next_index(n, next_index(n, i));
        assert(off_edge(n, i, c));
        assert(off_edge(n, 0, next_index(n, next_index(n, 0))));
        assert(side_cross(u, i, c) != 0);
        lemma_corner_scan_none(u, i + 1);
    }
}

proof fn lemma_side_scan_none_from_convex(u: Seq<(int, int)>, e: int, v: int)
    requires
        strictly_convex_with(u, corner_cross(u, 0) > 0),
        0 <= e,
        0 <= v,
    ensures
        side_scan(u, e, v) is None,
    decreases u.len() - e, u.len() - v,
{
    let n = u.len() as int;
    if e >= n {
    } else if v >= n {
        lemma_side_scan_none_from_convex(u, e + 1, 0);
    } else {
        if off_edge(n, e, v) {
            assert(side_cross(u, e, v) != 0);
        }
        lemma_side_scan_none_from_convex(u, e, v + 1);
    }
}

/// Strictly convex distinct points within the radius limit pass validation,
/// with the winding their first corner shows.
proof fn lemma_convex_validates(u: Seq<(int, int)>, positive: bool)
    requires
        3 <= u.len() <= 6,
        strictly_convex_with(u, positive),
        distinct_points(u),
        !has_vertex_outside(u),
    ensures
        validation(u) == Ok::<i8, ConvexError>(if positive { 1i8 } else { -1i8 }),
{
    let n = u.len() as int;
    lemma_corner_is_side(u, 0);
    assert(off_edge(n, 0, next_index(n, next_index(n, 0))));
    assert((corner_cross(u, 0) > 0) == positive);
    lemma_corner_scan_none(u, 0);
    lemma_side_scan_none_from_convex(u, 0, 0);
    if has_duplicate(u) {
        let (i, j) = choose|i: int, j: int| 0 <= i < j < u.len() && u[i] == u[j];
        assert(u[i] != u[j]);
    }
}

/// Starting the cycle elsewhere does not change the canonical cycle.
proof fn lemma_rotate_to_min(w: Seq<(int, int)>, k: int)
    requires
        w.len() >= 1,
        distinct_points(w),
        0 <= k < w.len(),
    ensures
        rotate_seq(rotate_seq(w, k), min_index(rotate_seq(w, k))) == rotate_seq(w, min_index(w)),
{
    let n = w.len() as int;
    let r = rotate_seq(w, k);
    lemma_distinct_rotate_reverse(w, k);
    lemma_min_index_strict(w);
    lemma_min_index_strict(r);
    let m = min_index(w);
    let m2 = min_index(r);
    let j = wrap(n, m2 + k);
    if j != m {
        assert(lex_less(w[m], w[j]));
        let i = wrap(n, m + n - k);
        assert(wrap(n, i + k) == m);
        assert(r[i] == w[m]);
        if i != m2 {
            assert(lex_less(r[m2], r[i]));
        }
        assert(r[m2] == w[j]);
        assert(false);
    }
    assert(rotate_seq(r, m2) =~= rotate_seq(w, m));
}

proof fn lemma_reverse_rotate(u: Seq<(int, int)>, k: int)
    requires
        0 <= k < u.len(),
    ensures
        reverse_seq(rotate_seq(u, k)) == rotate_seq(reverse_seq(u), if k == 0 { 0 } else { u.len() - k }),
{
    let n = u.len() as int;
    let k2 = if k == 0 { 0 } else { n - k };
    assert(reverse_seq(rotate_seq(u, k)) =~= rotate_seq(reverse_seq(u), k2));
}

proof fn lemma_outcome_ok_facts(s: Seq<Position>)
    requires
        convex_outcome(s) is Ok,
    ensures
        3 <= s.len() <= 6,
        forall|i: int| 0 <= i < s.len() ==> packable(#[trigger] s[i]@),
        validation(quantized_points(s)) is Ok,
        strictly_convex_with(quantized_points(s), validation(quantized_points(s))->Ok_0 > 0),
        distinct_points(quantized_points(s)),
        !has_vertex_outside(quantized_points(s)),
{
    lemma_validation_convex(quantized_points(s));
}

/// A valid vertex list started at any index builds the same convex.
pub proof fn lemma_new_ignores_start(s: Seq<Position>, k: int)
    requires
        convex_outcome(s) is Ok,
        0 <= k < s.len(),
    ensures
        convex_outcome(rotate_positions(s, k)) == convex_outcome(s),
{
    let n = s.len() as int;
    lemma_outcome_ok_facts(s);
    let u = quantized_points(s);
    let rs = rotate_positions(s, k);
    let r = quantized_points(rs);
    assert(r =~= rotate_seq(u, k));
    let positive = validation(u)->Ok_0 > 0;
    assert(forall|i: int| 0 <= i < n ==> packable(#[trigger] rs[i]@)) by {
        assert forall|i: int| 0 <= i < n implies packable(#[trigger] rs[i]@) by {
            assert(rs[i] == s[wrap(n, i + k)]);
        }
    }
    lemma_convex_rotate(u, k, positive);
    lemma_distinct_rotate_reverse(u, k);
    if has_vertex_outside(r) {
        let i = choose|i: int| 0 <= i < r.len() && r[i].0 * r[i].0 + r[i].1 * r[i].1 > 0x1fff_ffff * 0x1fff_ffff;
        assert(r[i] == u[wrap(n, i + k)]);
        assert(has_vertex_outside(u));
    }
    lemma_convex_validates(r, positive);
    lemma_convex_validates(u, positive);
    if positive {
        lemma_rotate_to_min(u, k);
    } else {
        lemma_reverse_rotate(u, k);
        let k2 = if k == 0 { 0 } else { n - k };
        lemma_distinct_rotate_reverse(u, k);
        lemma_rotate_to_min(reverse_seq(u), k2);
    }
    assert(canonical_cycle(r, positive) == canonical_cycle(u, positive));
}

/// A valid vertex list walked the other way builds the same convex.
pub proof fn lemma_new_ignores_winding(s: Seq<Position>)
    requires
        convex_outcome(s) is Ok,
    ensures
        convex_outcome(reverse_positions(s)) == convex_outcome(s),
{
    let n = s.len() as int;
    lemma_outcome_ok_facts(s);
    let u = quantized_points(s);
    let rs = reverse_positions(s);
    let r = quantized_points(rs);
    assert(r =~= reverse_seq(u));
    let positive = validation(u)->Ok_0 > 0;
    assert(forall|i: int| 0 <= i < n ==> packable(#[trigger] rs[i]@)) by {
        assert forall|i: int| 0 <= i < n implies packable(#[trigger] rs[i]@) by {
            assert(rs[i] == s[n - 1 - i]);
        }
    }
    lemma_convex_reverse(u, positive);
    lemma_distinct_rotate_reverse(u, 0);
    if has_vertex_outside(r) {
        let i = choose|i: int| 0 <= i < r.len() && r[i].0 * r[i].0 + r[i].1 * r[i].1 > 0x1fff_ffff * 0x1fff_ffff;
        assert(r[i] == u[n - 1 - i]);
        assert(has_vertex_outside(u));
    }
    lemma_convex_validates(r, !positive);
    lemma_convex_validates(u, positive);
    assert(reverse_seq(r) =~= u);
    assert(canonical_cycle(r, !positive) == canonical_cycle(u, positive));
}

/// What `Convex::new` builds from a vertex list started at another index
/// is the identical value, slot for slot: `a` and `b` stand for the results
/// of `new` on `s` and on its rotation.
pub proof fn lemma_rotated_input_identical_storage(s: Seq<Position>, k: int, a: Convex, b: Convex)
    requires
        0 <= k < s.len(),
        convex_outcome(s) == Ok::<_, ConvexError>(a@),
        convex_outcome(rotate_positions(s, k)) == Ok::<_, ConvexError>(b@),
        a.storage_padded(),
        b.storage_padded(),
    ensures
        a == b,
{
    lemma_new_ignores_start(s, k);
    Convex::lemma_view_determines_storage(a, b);
}

/// What `Convex::new` builds from the reversed vertex list is the identical
/// value, slot for slot: `a` and `b` stand for the results of `new` on `s`
/// and on its reversal.
pub proof fn lemma_reversed_input_identical_storage(s: Seq<Position>, a: Convex, b: Convex)
    requires
        convex_outcome(s) == Ok::<_, ConvexError>(a@),
        convex_outcome(reverse_positions(s)) == Ok::<_, ConvexError>(b@),
        a.storage_padded(),
        b.storage_padded(),
    ensures
        a == b,
{
    lemma_new_ignores_winding(s);
    Convex::lemma_view_determines_storage(a, b);
}

} // verus!
