use vstd::prelude::*;

use crate::geometry::aabb::Aabb;
use crate::geometry::point::GeometryPoint;
use crate::geometry::unit_vector::{PackedUnitVector, UnitVector, normalized_component, pack_q14};
use crate::transform::{Transform, transform_point, within_collider_radius};
use super::inertia::from_q24_per_q32_ratio;
use crate::ops::div_round_shift_spec;
use crate::ops::{isqrt_spec, trunc_div};
use crate::quantity::position::{MAX_POSITION, Position};
use crate::quantity::raw::DiffVec2;
use super::polygon::{
    canonical_cycle, corner_cross, distinct_points, lemma_canonical_convex, lemma_min_index_upto,
    min_index, min_index_upto, next_index, off_edge, pt_sub, reverse_seq, rotate_seq, side_cross,
    strictly_convex_ccw, strictly_convex_with, lex_less, wrap, twice_area_upto, inertia_sum_upto,
    inertia_term, pt_cross, pt_dot, lemma_convex_area_and_inertia_positive,
};

verus! {

/// Largest number of vertices a convex collider stores.
pub const MAX_CONVEX_VERTICES: usize = 6;

/// Raw Q16 units per packed Q5 unit (`2^11`).
pub const PACKED_QUANTUM: i32 = 2048;

/// A coordinate component survives packing to signed Q5 in an `i16`.
pub open spec fn packable_component(value: int) -> bool {
    -0x8000 <= trunc_div(value, PACKED_QUANTUM as int) <= 0x7fff
}

/// A position survives packing to signed Q5.
pub open spec fn packable(p: (i32, i32)) -> bool {
    packable_component(p.0 as int) && packable_component(p.1 as int)
}

/// The position truncated toward zero onto the Q5 grid, in raw Q16.
pub open spec fn quantize_point(p: (i32, i32)) -> (int, int) {
    (
        trunc_div(p.0 as int, PACKED_QUANTUM as int) * PACKED_QUANTUM,
        trunc_div(p.1 as int, PACKED_QUANTUM as int) * PACKED_QUANTUM,
    )
}

/// Raw coordinates of a sequence of positions.
pub open spec fn position_points(s: Seq<Position>) -> Seq<(int, int)> {
    Seq::new(s.len(), |i: int| (s[i]@.0 as int, s[i]@.1 as int))
}

/// The input vertices on the Q5 grid.
pub open spec fn quantized_points(s: Seq<Position>) -> Seq<(int, int)> {
    Seq::new(s.len(), |i: int| quantize_point(s[i]@))
}

/// Body-local collider coordinate stored as signed Q5 metres.
#[derive(Debug, Clone, Copy, PartialEq, Eq, Hash, Structural)]
pub struct PackedPosition {
    pub(crate) x: i16,
    pub(crate) y: i16,
}

impl View for PackedPosition {
    /// Components in Q5.
    type V = (i16, i16);

    closed spec fn view(&self) -> (i16, i16) {
        (self.x, self.y)
    }
}

impl PackedPosition {
    pub const FRACTION_BITS: u32 = 5;
    pub const UNPACK_SHIFT: u32 = 11;

    /// The origin.
    pub fn zero() -> (r: Self)
        ensures
            r@ == (0i16, 0i16),
    {
        Self { x: 0, y: 0 }
    }

    /// Packs a position, truncating each component toward zero; `None` when a
    /// component does not fit signed Q5 in 16 bits.
    #[inline(always)]
    pub fn new(position: Position) -> (r: Option<Self>)
        ensures
            r is Some <==> packable(position@),
            r matches Some(r) ==> r@.0 as int == trunc_div(position@.0 as int, PACKED_QUANTUM as int)
                && r@.1 as int == trunc_div(position@.1 as int, PACKED_QUANTUM as int),
    {
        let raw = position.raw();
        let x = raw[0] / PACKED_QUANTUM;
        let y = raw[1] / PACKED_QUANTUM;
        if x < -0x8000 || x > 0x7fff || y < -0x8000 || y > 0x7fff {
            None
        } else {
            Some(Self { x: x as i16, y: y as i16 })
        }
    }

    /// The packed coordinate back in raw Q16.
    #[inline(always)]
    pub fn unpack(self) -> (r: Position)
        ensures
            r@.0 as int == self@.0 * PACKED_QUANTUM,
            r@.1 as int == self@.1 * PACKED_QUANTUM,
    {
        Position::from_i32(self.x as i32 * PACKED_QUANTUM, self.y as i32 * PACKED_QUANTUM)
    }
}

/// Why a vertex list does not describe a strict convex polygon.
#[derive(Debug, Clone, Copy, PartialEq, Eq, Structural)]
pub enum ConvexError {
    TooFewVertices,
    TooManyVertices,
    VertexOutsideLimit,
    DuplicateVertex,
    CollinearEdge,
    NotConvex,
}

/// Some vertex is farther than the collider radius limit from the origin.
pub open spec fn has_vertex_outside(u: Seq<(int, int)>) -> bool {
    exists|i: int| 0 <= i < u.len() && u[i].0 * u[i].0 + u[i].1 * u[i].1 > MAX_POSITION * MAX_POSITION
}

/// Some point occurs twice.
pub open spec fn has_duplicate(u: Seq<(int, int)>) -> bool {
    exists|i: int, j: int| 0 <= i < j < u.len() && u[i] == u[j]
}

/// The walk over corners `i..n` in order: the first corner that is straight,
/// or turns against corner `0`.
pub open spec fn corner_scan(u: Seq<(int, int)>, i: int) -> Option<ConvexError>
    decreases u.len() - i,
{
    if i >= u.len() || i < 0 {
        None
    } else if corner_cross(u, i) == 0 {
        Some(ConvexError::CollinearEdge)
    } else if (corner_cross(u, i) > 0) != (corner_cross(u, 0) > 0) {
        Some(ConvexError::NotConvex)
    } else {
        corner_scan(u, i + 1)
    }
}

/// The walk over (edge, vertex) pairs from `(e, v)` in order: the first
/// vertex that lies on an edge line, or on the wrong side of it.
pub open spec fn side_scan(u: Seq<(int, int)>, e: int, v: int) -> Option<ConvexError>
    decreases u.len() - e, u.len() - v,
{
    let n = u.len() as int;
    if e >= n || e < 0 || v < 0 {
        None
    } else if v >= n {
        side_scan(u, e + 1, 0)
    } else if !off_edge(n, e, v) {
        side_scan(u, e, v + 1)
    } else if side_cross(u, e, v) == 0 {
        Some(ConvexError::CollinearEdge)
    } else if (side_cross(u, e, v) > 0) != (corner_cross(u, 0) > 0) {
        Some(ConvexError::NotConvex)
    } else {
        side_scan(u, e, v + 1)
    }
}

/// Outcome of validating grid points: the winding sign of a strict convex
/// polygon, or the first failed check.
pub open spec fn validation(u: Seq<(int, int)>) -> Result<i8, ConvexError> {
    if u.len() < 3 {
        Err(ConvexError::TooFewVertices)
    } else if u.len() > MAX_CONVEX_VERTICES {
        Err(ConvexError::TooManyVertices)
    } else if has_vertex_outside(u) {
        Err(ConvexError::VertexOutsideLimit)
    } else if has_duplicate(u) {
        Err(ConvexError::DuplicateVertex)
    } else if corner_scan(u, 0) is Some {
        Err(corner_scan(u, 0)->0)
    } else if side_scan(u, 0, 0) is Some {
        Err(side_scan(u, 0, 0)->0)
    } else if corner_cross(u, 0) > 0 {
        Ok(1i8)
    } else {
        Ok(-1i8)
    }
}

proof fn lemma_side_scan_none(u: Seq<(int, int)>, e: int, v: int)
    requires
        side_scan(u, e, v) is None,
        0 <= e,
        0 <= v,
    ensures
        forall|e2: int, v2: int|
            #![trigger side_cross(u, e2, v2)]
            (e < e2 || (e2 == e && v <= v2)) && e2 < u.len() && 0 <= v2 < u.len() && off_edge(u.len() as int, e2, v2)
                ==> side_cross(u, e2, v2) != 0 && (side_cross(u, e2, v2) > 0) == (corner_cross(u, 0) > 0),
    decreases u.len() - e, u.len() - v,
{
    let n = u.len() as int;
    if e >= n {
    } else if v >= n {
        lemma_side_scan_none(u, e + 1, 0);
        assert forall|e2: int, v2: int|
            #![trigger side_cross(u, e2, v2)]
            (e < e2 || (e2 == e && v <= v2)) && e2 < u.len() && 0 <= v2 < u.len() && off_edge(n, e2, v2)
                implies side_cross(u, e2, v2) != 0 && (side_cross(u, e2, v2) > 0) == (corner_cross(u, 0) > 0) by {
            assert(e + 1 < e2 || (e2 == e + 1 && 0 <= v2));
        }
    } else {
        lemma_side_scan_none(u, e, v + 1);
        assert forall|e2: int, v2: int|
            #![trigger side_cross(u, e2, v2)]
            (e < e2 || (e2 == e && v <= v2)) && e2 < u.len() && 0 <= v2 < u.len() && off_edge(n, e2, v2)
                implies side_cross(u, e2, v2) != 0 && (side_cross(u, e2, v2) > 0) == (corner_cross(u, 0) > 0) by {
            if e2 == e && v2 == v {
                assert(side_scan(u, e, v) is None);
            }
        }
    }
}

/// Passing validation means strict convexity with the reported winding.
pub proof fn lemma_validation_convex(u: Seq<(int, int)>)
    requires
        validation(u) is Ok,
    ensures
        strictly_convex_with(u, validation(u)->Ok_0 > 0),
        distinct_points(u),
{
    lemma_side_scan_none(u, 0, 0);
    assert forall|i: int, j: int| 0 <= i < j < u.len() implies u[i] != u[j] by {
        if u[i] == u[j] {
            assert(has_duplicate(u));
        }
    }
}

/// Quantizes every vertex onto the Q5 grid.
pub fn quantize_vertices(vertices: &[Position]) -> (r: Result<Vec<Position>, ConvexError>)
    ensures
        r is Err <==> (vertices@.len() < 3 || vertices@.len() > MAX_CONVEX_VERTICES
            || exists|i: int| 0 <= i < vertices@.len() && !packable(#[trigger] vertices@[i]@)),
        r matches Err(e) ==> e == (if vertices@.len() < 3 {
            ConvexError::TooFewVertices
        } else if vertices@.len() > MAX_CONVEX_VERTICES {
            ConvexError::TooManyVertices
        } else {
            ConvexError::VertexOutsideLimit
        }),
        r matches Ok(q) ==> position_points(q@) == quantized_points(vertices@),
{
    let n = vertices.len();
    if n < 3 {
        return Err(ConvexError::TooFewVertices);
    }
    if n > MAX_CONVEX_VERTICES {
        return Err(ConvexError::TooManyVertices);
    }
    let mut out: Vec<Position> = Vec::new();
    for i in 0..n
        invariant
            n == vertices@.len(),
            3 <= n <= MAX_CONVEX_VERTICES,
            out@.len() == i,
            forall|j: int| 0 <= j < i ==> packable(#[trigger] vertices@[j]@),
            forall|j: int| 0 <= j < i ==> (#[trigger] out@[j])@.0 as int == quantize_point(vertices@[j]@).0
                && out@[j]@.1 as int == quantize_point(vertices@[j]@).1,
    {
        match PackedPosition::new(vertices[i]) {
            None => {
                return Err(ConvexError::VertexOutsideLimit);
            },
            Some(p) => {
                out.push(p.unpack());
            },
        }
    }
    proof {
        assert(position_points(out@) =~= quantized_points(vertices@));
    }
    Ok(out)
}

/// Checks that grid vertices form a strict convex polygon; returns the
/// winding sign (`1` counter-clockwise, `-1` clockwise).
pub fn validate_vertices(vertices: &[Position]) -> (r: Result<i8, ConvexError>)
    ensures
        r == validation(position_points(vertices@)),
{
    let ghost u = position_points(vertices@);
    let n = vertices.len();
    if n < 3 {
        return Err(ConvexError::TooFewVertices);
    }
    if n > MAX_CONVEX_VERTICES {
        return Err(ConvexError::TooManyVertices);
    }
    let max_radius = MAX_POSITION as u64;
    let max_squared_radius = max_radius * max_radius;
    for i in 0..n
        invariant
            n == vertices@.len(),
            3 <= n <= MAX_CONVEX_VERTICES,
            u == position_points(vertices@),
            max_squared_radius == MAX_POSITION * MAX_POSITION,
            forall|j: int| 0 <= j < i ==> (#[trigger] u[j]).0 * u[j].0 + u[j].1 * u[j].1 <= MAX_POSITION * MAX_POSITION,
    {
        if vertices[i].squared_distance(Position::zero()) > max_squared_radius {
            proof {
                assert(u[i as int].0 * u[i as int].0 + u[i as int].1 * u[i as int].1 > MAX_POSITION * MAX_POSITION);
                assert(has_vertex_outside(u));
            }
            return Err(ConvexError::VertexOutsideLimit);
        }
    }
    assert(!has_vertex_outside(u));
    for i in 0..n
        invariant
            n == vertices@.len(),
            3 <= n <= MAX_CONVEX_VERTICES,
            u == position_points(vertices@),
            !has_vertex_outside(u),
            forall|a: int, b: int| 0 <= a < b < n && a < i ==> u[a] != u[b],
    {
        for j in i + 1..n
            invariant
                n == vertices@.len(),
                3 <= n <= MAX_CONVEX_VERTICES,
                u == position_points(vertices@),
                !has_vertex_outside(u),
                i < n,
                forall|a: int, b: int| 0 <= a < b < n && a < i ==> u[a] != u[b],
                forall|b: int| i < b < j ==> u[i as int] != u[b],
        {
            let pa = vertices[i].raw();
            let pb = vertices[j].raw();
            if pa[0] == pb[0] && pa[1] == pb[1] {
                proof {
                    assert(u[i as int] == u[j as int]);
                    assert(has_duplicate(u));
                }
                return Err(ConvexError::DuplicateVertex);
            }
        }
    }
    assert(!has_duplicate(u));
    let mut winding: i8 = 0;
    for i in 0..n
        invariant
            n == vertices@.len(),
            3 <= n <= MAX_CONVEX_VERTICES,
            u == position_points(vertices@),
            !has_vertex_outside(u),
            !has_duplicate(u),
            corner_scan(u, 0) == corner_scan(u, i as int),
            i == 0 ==> winding == 0,
            i > 0 ==> winding == (if corner_cross(u, 0) > 0 { 1i8 } else { -1i8 }),
    {
        let b_index = if i + 1 >= n { 0 } else { i + 1 };
        let c_index = if b_index + 1 >= n { 0 } else { b_index + 1 };
        let a = vertices[i];
        let b = vertices[b_index];
        let c = vertices[c_index];
        let cross = b.diff(a).cross(c.diff(b));
        if cross == 0 {
            return Err(ConvexError::CollinearEdge);
        }
        let sign: i8 = if cross > 0 { 1 } else { -1 };
        if winding == 0 {
            winding = sign;
        } else if winding != sign {
            return Err(ConvexError::NotConvex);
        }
    }
    assert(corner_scan(u, n as int) is None);
    for edge in 0..n
        invariant
            n == vertices@.len(),
            3 <= n <= MAX_CONVEX_VERTICES,
            u == position_points(vertices@),
            winding == (if corner_cross(u, 0) > 0 { 1i8 } else { -1i8 }),
            !has_vertex_outside(u),
            !has_duplicate(u),
            corner_scan(u, 0) is None,
            side_scan(u, 0, 0) == side_scan(u, edge as int, 0),
    {
        let next = if edge + 1 >= n { 0 } else { edge + 1 };
        for vertex in 0..n
            invariant
                n == vertices@.len(),
                3 <= n <= MAX_CONVEX_VERTICES,
                u == position_points(vertices@),
                edge < n,
                next == next_index(n as int, edge as int),
                winding == (if corner_cross(u, 0) > 0 { 1i8 } else { -1i8 }),
                !has_vertex_outside(u),
                !has_duplicate(u),
                corner_scan(u, 0) is None,
                side_scan(u, 0, 0) == side_scan(u, edge as int, vertex as int),
        {
            if vertex != edge && vertex != next {
                let a = vertices[edge];
                let side = vertices[next].diff(a).cross(vertices[vertex].diff(a));
                if side == 0 {
                    return Err(ConvexError::CollinearEdge);
                }
                if (side > 0) != (winding > 0) {
                    return Err(ConvexError::NotConvex);
                }
            }
        }
    }
    Ok(winding)
}

/// A raw Q16 coordinate that is an exact packed Q5 value.
pub open spec fn on_grid_component(value: int) -> bool {
    &&& value % PACKED_QUANTUM as int == 0
    &&& -0x8000 * PACKED_QUANTUM <= value <= 0x7fff * PACKED_QUANTUM
}

/// Both raw coordinates are exact packed Q5 values.
pub open spec fn on_grid(p: (i32, i32)) -> bool {
    on_grid_component(p.0 as int) && on_grid_component(p.1 as int)
}

/// Stored vertices, unpacked to raw Q16.
pub open spec fn unpacked_vertices(v: [PackedPosition; MAX_CONVEX_VERTICES], count: nat) -> Seq<(int, int)> {
    Seq::new(count, |i: int| (v@[i]@.0 * PACKED_QUANTUM, v@[i]@.1 * PACKED_QUANTUM))
}

/// Stored normals, unpacked to Q30.
pub open spec fn unpacked_normals(v: [PackedUnitVector; MAX_CONVEX_VERTICES], count: nat) -> Seq<(int, int)> {
    Seq::new(count, |i: int| (v@[i]@.0 * 0x1_0000, v@[i]@.1 * 0x1_0000))
}

/// Outward unit normal of edge `i` of a counter-clockwise cycle, rounded
/// through Q14 storage and expressed in Q30.
pub open spec fn edge_normal(c: Seq<(int, int)>, i: int) -> (int, int) {
    let e = pt_sub(c[next_index(c.len() as int, i)], c[i]);
    let d = (e.1, -e.0);
    let length = isqrt_spec(d.0 * d.0 + d.1 * d.1);
    (
        pack_q14(normalized_component(d.0, length)) * 0x1_0000,
        pack_q14(normalized_component(d.1, length)) * 0x1_0000,
    )
}

/// The vertices and stored edge normals of the convex with canonical cycle `c`.
pub open spec fn convex_model(c: Seq<(int, int)>) -> (Seq<(int, int)>, Seq<(int, int)>) {
    (c, Seq::new(c.len(), |i: int| edge_normal(c, i)))
}

/// What `Convex::new` makes of the given vertices.
pub open spec fn convex_outcome(s: Seq<Position>) -> Result<(Seq<(int, int)>, Seq<(int, int)>), ConvexError> {
    if s.len() < 3 {
        Err(ConvexError::TooFewVertices)
    } else if s.len() > MAX_CONVEX_VERTICES {
        Err(ConvexError::TooManyVertices)
    } else if exists|i: int| 0 <= i < s.len() && !packable(#[trigger] s[i]@) {
        Err(ConvexError::VertexOutsideLimit)
    } else {
        match validation(quantized_points(s)) {
            Err(e) => Err(e),
            Ok(w) => Ok(convex_model(canonical_cycle(quantized_points(s), w > 0))),
        }
    }
}

/// Strictly convex polygon with three to six local-space vertices.
///
/// Vertices are quantized to signed Q5 metres (truncating toward zero) and
/// canonicalized to counter-clockwise order starting at the lexicographically
/// smallest vertex, so cyclic permutations and the opposite winding of one
/// polygon have the same representation. Vertices and edge normals are stored
/// inline; local coordinates are limited to about `-1024..1024 m`.
#[derive(Debug, Clone, Copy, PartialEq, Eq, Hash)]
pub struct Convex {
    pub(crate) vertices: [PackedPosition; MAX_CONVEX_VERTICES],
    pub(crate) normals: [PackedUnitVector; MAX_CONVEX_VERTICES],
    pub(crate) count: u8,
}

impl View for Convex {
    /// `(vertices in raw Q16, edge normals in Q30)`, in canonical order.
    type V = (Seq<(int, int)>, Seq<(int, int)>);

    closed spec fn view(&self) -> (Seq<(int, int)>, Seq<(int, int)>) {
        (unpacked_vertices(self.vertices, self.count as nat), unpacked_normals(self.normals, self.count as nat))
    }
}

impl Convex {
    /// The storage holds three to six vertices, and every slot past them
    /// holds the origin and the +X direction, so the view decides the value.
    pub closed spec fn storage_padded(self) -> bool {
        &&& 3 <= self.count <= MAX_CONVEX_VERTICES
        &&& forall|i: int| self.count <= i < MAX_CONVEX_VERTICES ==> (#[trigger] self.vertices@[i])@ == (0i16, 0i16)
        &&& forall|i: int| self.count <= i < MAX_CONVEX_VERTICES ==> (#[trigger] self.normals@[i])@ == (0x4000i16, 0i16)
    }

    /// Two convex colliders with padded storage and equal views are the same
    /// value, slot for slot.
    pub proof fn lemma_view_determines_storage(a: Self, b: Self)
        requires
            a.storage_padded(),
            b.storage_padded(),
            a@ == b@,
        ensures
            a == b,
    {
        broadcast use vstd::array::group_array_axioms;
        assert(a@.0.len() == a.count);
        assert(b@.0.len() == b.count);
        assert forall|i: int| 0 <= i < MAX_CONVEX_VERTICES implies a.vertices[i] == b.vertices[i] by {
            if i < a.count {
                assert(a@.0[i] == b@.0[i]);
            }
        }
        assert forall|i: int| 0 <= i < MAX_CONVEX_VERTICES implies a.normals[i] == b.normals[i] by {
            if i < a.count {
                assert(a@.1[i] == b@.1[i]);
            }
            PackedUnitVector::lemma_view_injective(a.normals[i], b.normals[i]);
        }
        assert(a.vertices =~= b.vertices);
        assert(a.normals =~= b.normals);
    }

    #[verifier::type_invariant]
    closed spec fn well_formed(self) -> bool {
        &&& self.storage_padded()
        &&& strictly_convex_ccw(self@.0)
        &&& distinct_points(self@.0)
        &&& self@ == convex_model(self@.0)
    }

    /// Builds a convex collider from three to six vertices in either winding.
    pub fn new(vertices: &[Position]) -> (r: Result<Self, ConvexError>)
        ensures
            match r {
                Ok(c) => convex_outcome(vertices@) == Ok::<_, ConvexError>(c@) && c.storage_padded(),
                Err(e) => convex_outcome(vertices@) == Err::<(Seq<(int, int)>, Seq<(int, int)>), _>(e),
            },
    {
        let quantized = match quantize_vertices(vertices) {
            Ok(q) => q,
            Err(e) => {
                return Err(e);
            },
        };
        let winding = match validate_vertices(quantized.as_slice()) {
            Ok(w) => w,
            Err(e) => {
                return Err(e);
            },
        };
        proof {
            assert forall|i: int| 0 <= i < quantized@.len() implies on_grid(#[trigger] quantized@[i]@) by {
                assert(position_points(quantized@)[i] == quantized_points(vertices@)[i]);
                lemma_quantized_on_grid(vertices@[i]@.0 as int);
                lemma_quantized_on_grid(vertices@[i]@.1 as int);
            }
        }
        Ok(Self::from_valid_vertices(quantized.as_slice(), winding))
    }

    /// Canonicalizes validated grid vertices and derives their edge normals.
    fn from_valid_vertices(vertices: &[Position], winding: i8) -> (r: Self)
        requires
            validation(position_points(vertices@)) == Ok::<i8, ConvexError>(winding),
            forall|i: int| 0 <= i < vertices@.len() ==> on_grid(#[trigger] vertices@[i]@),
        ensures
            r@ == convex_model(canonical_cycle(position_points(vertices@), winding > 0)),
            r.storage_padded(),
    {
        let ghost u = position_points(vertices@);
        let n = vertices.len();
        proof {
            lemma_validation_convex(u);
            lemma_canonical_convex(u, winding > 0);
        }
        let ghost w_spec = if winding > 0 { u } else { reverse_seq(u) };
        let mut w: Vec<Position> = Vec::new();
        for i in 0..n
            invariant
                n == vertices@.len(),
                3 <= n <= MAX_CONVEX_VERTICES,
                u == position_points(vertices@),
                w_spec == (if winding > 0 { u } else { reverse_seq(u) }),
                validation(u) == Ok::<i8, ConvexError>(winding),
                w@.len() == i,
                forall|j: int| 0 <= j < i ==> (#[trigger] w@[j])@.0 as int == w_spec[j].0 && w@[j]@.1 as int == w_spec[j].1,
                forall|j: int| 0 <= j < vertices@.len() ==> on_grid(#[trigger] vertices@[j]@),
                forall|j: int| 0 <= j < i ==> on_grid(#[trigger] w@[j]@),
        {
            let v = if winding < 0 { vertices[n - 1 - i] } else { vertices[i] };
            w.push(v);
        }
        let ghost pw = position_points(w@);
        assert(pw =~= w_spec);
        assert(forall|j: int| 0 <= j < n ==> on_grid(#[trigger] w@[j]@));
        let mut first: usize = 0;
        for i in 1..n
            invariant
                n == w@.len(),
                3 <= n,
                pw == position_points(w@),
                first == min_index_upto(pw, i as int),
                0 <= first < i,
        {
            proof {
                lemma_min_index_upto(pw, i as int);
            }
            let a = w[i].raw();
            let b = w[first].raw();
            if a[0] < b[0] || (a[0] == b[0] && a[1] < b[1]) {
                first = i;
            }
        }
        proof {
            lemma_min_index_upto(pw, n as int);
        }
        let ghost c = canonical_cycle(u, winding > 0);
        assert(c =~= rotate_seq(pw, first as int));
        let mut packed: [PackedPosition; MAX_CONVEX_VERTICES] = [PackedPosition::zero(); MAX_CONVEX_VERTICES];
        for i in 0..n
            invariant
                n == w@.len(),
                3 <= n <= MAX_CONVEX_VERTICES,
                first < n,
                pw == position_points(w@),
                c == rotate_seq(pw, first as int),
                forall|j: int| 0 <= j < n ==> on_grid(#[trigger] w@[j]@),
                forall|j: int| 0 <= j < i ==> (#[trigger] packed@[j])@.0 * PACKED_QUANTUM == c[j].0
                    && packed@[j]@.1 * PACKED_QUANTUM == c[j].1,
                forall|j: int| n <= j < MAX_CONVEX_VERTICES ==> (#[trigger] packed@[j])@ == (0i16, 0i16),
        {
            let j = if i + first >= n { i + first - n } else { i + first };
            assert(wrap(n as int, i + first) == j);
            assert(on_grid(w@[j as int]@));
            packed[i] = PackedPosition::from_grid(w[j]);
        }
        let ghost vseq = unpacked_vertices(packed, n as nat);
        assert(vseq =~= c);
        let mut normals: [PackedUnitVector; MAX_CONVEX_VERTICES] = [PackedUnitVector::x(); MAX_CONVEX_VERTICES];
        for i in 0..n
            invariant
                3 <= n <= MAX_CONVEX_VERTICES,
                c.len() == n,
                vseq == c,
                vseq == unpacked_vertices(packed, n as nat),
                distinct_points(c),
                forall|j: int| 0 <= j < i ==> ((#[trigger] normals@[j])@.0 * 0x1_0000, normals@[j]@.1 * 0x1_0000) == edge_normal(c, j),
                forall|j: int| n <= j < MAX_CONVEX_VERTICES ==> (#[trigger] packed@[j])@ == (0i16, 0i16),
                forall|j: int| n <= j < MAX_CONVEX_VERTICES ==> (#[trigger] normals@[j])@ == (0x4000i16, 0i16),
        {
            let next = if i + 1 >= n { 0 } else { i + 1 };
            let a = packed[i].unpack();
            let b = packed[next].unpack();
            let edge = b.diff(a).raw();
            proof {
                assert(c[i as int] == vseq[i as int]);
                assert(c[next as int] == vseq[next as int]);
                if i < next {
                    assert(c[i as int] != c[next as int]);
                } else {
                    assert(c[next as int] != c[i as int]);
                }
            }
            let direction = DiffVec2::from_raw_unchecked(edge[1], -edge[0]);
            let normal = match UnitVector::normalized(direction) {
                Some(unit) => PackedUnitVector::from_unit(unit),
                None => PackedUnitVector::x(),
            };
            normals[i] = normal;
        }
        assert(unpacked_normals(normals, n as nat) =~= convex_model(c).1);
        Self { vertices: packed, normals, count: n as u8 }
    }
}

proof fn lemma_quantized_on_grid(value: int)
    requires
        packable_component(value),
    ensures
        on_grid_component(trunc_div(value, PACKED_QUANTUM as int) * PACKED_QUANTUM),
{
    let q = trunc_div(value, PACKED_QUANTUM as int);
    vstd::arithmetic::div_mod::lemma_mod_multiples_basic(q, PACKED_QUANTUM as int);
}

impl PackedPosition {
    /// Packs a coordinate that already lies on the Q5 grid, exactly.
    #[inline(always)]
    pub fn from_grid(position: Position) -> (r: Self)
        requires
            on_grid_component(position@.0 as int),
            on_grid_component(position@.1 as int),
        ensures
            r@.0 * PACKED_QUANTUM == position@.0,
            r@.1 * PACKED_QUANTUM == position@.1,
    {
        let raw = position.raw();
        proof {
            vstd::arithmetic::div_mod::lemma_fundamental_div_mod(raw[0] as int, PACKED_QUANTUM as int);
            vstd::arithmetic::div_mod::lemma_fundamental_div_mod(raw[1] as int, PACKED_QUANTUM as int);
            lemma_grid_trunc(raw[0] as int);
            lemma_grid_trunc(raw[1] as int);
        }
        let x = raw[0] / PACKED_QUANTUM;
        let y = raw[1] / PACKED_QUANTUM;
        Self { x: x as i16, y: y as i16 }
    }
}

proof fn lemma_grid_trunc(value: int)
    requires
        on_grid_component(value),
    ensures
        trunc_div(value, PACKED_QUANTUM as int) * PACKED_QUANTUM == value,
        -0x8000 <= trunc_div(value, PACKED_QUANTUM as int) <= 0x7fff,
{
    let d = PACKED_QUANTUM as int;
    vstd::arithmetic::div_mod::lemma_fundamental_div_mod(value, d);
    if value < 0 {
        vstd::arithmetic::div_mod::lemma_fundamental_div_mod(-value, d);
        assert((-value) % d == 0) by {
            vstd::arithmetic::div_mod::lemma_mod_sub_multiples_vanish(value, d);
        }
        vstd::arithmetic::div_mod::lemma_div_is_ordered(-value, 0x8000 * d, d);
        vstd::arithmetic::div_mod::lemma_div_by_multiple(0x8000, d);
    } else {
        vstd::arithmetic::div_mod::lemma_div_is_ordered(value, 0x7fff * d, d);
        vstd::arithmetic::div_mod::lemma_div_by_multiple(0x7fff, d);
    }
}

/// Smallest of `s[0..k]`.
pub open spec fn seq_min(s: Seq<int>, k: int) -> int
    decreases k,
{
    if k <= 1 {
        s[0]
    } else {
        let m = seq_min(s, k - 1);
        if s[k - 1] < m { s[k - 1] } else { m }
    }
}

/// Largest of `s[0..k]`.
pub open spec fn seq_max(s: Seq<int>, k: int) -> int
    decreases k,
{
    if k <= 1 {
        s[0]
    } else {
        let m = seq_max(s, k - 1);
        if s[k - 1] > m { s[k - 1] } else { m }
    }
}

/// Images of the local points under `transform`.
pub open spec fn transformed_points(points: Seq<(int, int)>, transform: Transform) -> Seq<(int, int)> {
    Seq::new(points.len(), |i: int| transform_point(transform, points[i]))
}

/// First coordinates.
pub open spec fn xs(points: Seq<(int, int)>) -> Seq<int> {
    Seq::new(points.len(), |i: int| points[i].0)
}

/// Second coordinates.
pub open spec fn ys(points: Seq<(int, int)>) -> Seq<int> {
    Seq::new(points.len(), |i: int| points[i].1)
}

/// Bounding box `(min_x, max_x, min_y, max_y)` of the local polygon placed
/// by `transform`.
pub open spec fn convex_bounds(vertices: Seq<(int, int)>, transform: Transform) -> (i32, i32, i32, i32) {
    let pts = transformed_points(vertices, transform);
    let n = pts.len() as int;
    (seq_min(xs(pts), n) as i32, seq_max(xs(pts), n) as i32, seq_min(ys(pts), n) as i32, seq_max(ys(pts), n) as i32)
}

/// Twice the area of the polygon.
pub open spec fn twice_area_of(vertices: Seq<(int, int)>) -> int {
    twice_area_upto(vertices, vertices.len() as int)
}

/// Twelve times the polar second moment of the polygon about the origin.
pub open spec fn inertia_sum_of(vertices: Seq<(int, int)>) -> int {
    inertia_sum_upto(vertices, vertices.len() as int)
}

/// `(mass_weight, mass_weight * I/m)` of the polygon: six times its doubled
/// area, and its second-moment sum.
pub open spec fn convex_mass_properties(vertices: Seq<(int, int)>) -> (int, int) {
    (6 * twice_area_of(vertices), inertia_sum_of(vertices))
}

/// World-space vertices of a convex collider in the bounded geometry domain.
#[derive(Debug, PartialEq, Eq, Hash)]
pub struct TransformedVertices {
    pub(crate) vertices: Vec<GeometryPoint>,
}

impl View for TransformedVertices {
    type V = Seq<(int, int)>;

    closed spec fn view(&self) -> Seq<(int, int)> {
        Seq::new(self.vertices@.len(), |i: int| (self.vertices@[i]@.0 as int, self.vertices@[i]@.1 as int))
    }
}

impl Clone for TransformedVertices {
    fn clone(&self) -> (r: Self)
        ensures
            r@ == self@,
    {
        let mut vertices: Vec<GeometryPoint> = Vec::new();
        let source = self.vertices.as_slice();
        for i in 0..source.len()
            invariant
                source@ == self.vertices@,
                vertices@ == self.vertices@.subrange(0, i as int),
        {
            vertices.push(source[i]);
        }
        let r = Self { vertices };
        assert(r.vertices@ =~= self.vertices@);
        r
    }
}

impl TransformedVertices {
    #[inline(always)]
    pub fn len(&self) -> (n: usize)
        ensures
            n == self@.len(),
    {
        self.vertices.len()
    }

    #[inline(always)]
    pub fn is_empty(&self) -> (r: bool)
        ensures
            r == (self@.len() == 0),
    {
        self.vertices.len() == 0
    }

    /// The vertices in canonical order.
    #[inline(always)]
    pub fn as_slice(&self) -> (s: &[GeometryPoint])
        ensures
            s@.len() == self@.len(),
            forall|i: int| 0 <= i < s@.len() ==> (s@[i]@.0 as int, s@[i]@.1 as int) == #[trigger] self@[i],
    {
        self.vertices.as_slice()
    }
}

/// A packed grid vertex is within the collider radius limit.
proof fn lemma_packed_within_radius(p: PackedPosition)
    ensures
        within_collider_radius(((p@.0 * PACKED_QUANTUM) as i32, (p@.1 * PACKED_QUANTUM) as i32)),
{
    let x = p@.0 * PACKED_QUANTUM;
    let y = p@.1 * PACKED_QUANTUM;
    assert(x * x <= 0x10_0000_0000_0000) by (nonlinear_arith)
        requires -0x400_0000 <= x <= 0x400_0000;
    assert(y * y <= 0x10_0000_0000_0000) by (nonlinear_arith)
        requires -0x400_0000 <= y <= 0x400_0000;
}

impl Convex {
    /// Number of vertices, three to six.
    #[inline(always)]
    pub fn len(self) -> (n: usize)
        ensures
            n == self@.0.len(),
            n == self@.1.len(),
            3 <= n <= MAX_CONVEX_VERTICES,
    {
        proof {
            use_type_invariant(&self);
        }
        self.count as usize
    }

    /// Always `false`: a convex has at least three vertices.
    #[inline(always)]
    pub fn is_empty(self) -> (r: bool)
        ensures
            r == (self@.0.len() == 0),
            !r,
    {
        proof {
            use_type_invariant(&self);
        }
        false
    }

    /// The body-local vertices in raw Q16, canonical order.
    pub fn vertices(self) -> (v: Vec<Position>)
        ensures
            position_points(v@) == self@.0,
            forall|i: int| 0 <= i < v@.len() ==> within_collider_radius(#[trigger] v@[i]@),
    {
        proof {
            use_type_invariant(&self);
        }
        let n = self.count as usize;
        let mut out: Vec<Position> = Vec::new();
        for i in 0..n
            invariant
                n == self@.0.len(),
                n <= MAX_CONVEX_VERTICES,
                out@.len() == i,
                forall|j: int| 0 <= j < i ==> (#[trigger] out@[j])@.0 as int == self@.0[j].0 && out@[j]@.1 as int == self@.0[j].1
                    && within_collider_radius(out@[j]@),
        {
            proof {
                lemma_packed_within_radius(self.vertices@[i as int]);
            }
            out.push(self.vertices[i].unpack());
        }
        assert(position_points(out@) =~= self@.0);
        out
    }

    /// The stored outward edge normals in Q30, canonical order.
    pub fn normals(&self) -> (v: Vec<UnitVector>)
        ensures
            v@.len() == self@.1.len(),
            v@.len() == self@.0.len(),
            3 <= v@.len() <= MAX_CONVEX_VERTICES,
            forall|i: int| 0 <= i < v@.len() ==> ((#[trigger] v@[i])@.0 as int, v@[i]@.1 as int) == self@.1[i],
            forall|i: int| 0 <= i < v@.len() ==> -0x4000_0000 <= (#[trigger] v@[i])@.0 <= 0x4000_0000
                && -0x4000_0000 <= v@[i]@.1 <= 0x4000_0000,
    {
        proof {
            use_type_invariant(self);
        }
        let n = self.count as usize;
        let mut out: Vec<UnitVector> = Vec::new();
        for i in 0..n
            invariant
                n == self@.1.len(),
                n <= MAX_CONVEX_VERTICES,
                out@.len() == i,
                forall|j: int| 0 <= j < i ==> ((#[trigger] out@[j])@.0 as int, out@[j]@.1 as int) == self@.1[j],
                forall|j: int| 0 <= j < i ==> -0x4000_0000 <= (#[trigger] out@[j])@.0 <= 0x4000_0000
                    && -0x4000_0000 <= out@[j]@.1 <= 0x4000_0000,
        {
            out.push(self.normals[i].unpack());
        }
        out
    }

    /// World-space vertices. The collider radius bound makes the
    /// transformation exact: no world-boundary saturation is needed.
    pub fn transformed_vertices(self, transform: Transform) -> (t: TransformedVertices)
        ensures
            t@ == transformed_points(self@.0, transform),
    {
        let local = self.vertices();
        let n = local.len();
        let mut out: Vec<GeometryPoint> = Vec::new();
        for i in 0..n
            invariant
                n == local@.len(),
                position_points(local@) == self@.0,
                forall|j: int| 0 <= j < n ==> within_collider_radius(#[trigger] local@[j]@),
                out@.len() == i,
                forall|j: int| 0 <= j < i ==> ((#[trigger] out@[j])@.0 as int, out@[j]@.1 as int)
                    == transform_point(transform, self@.0[j]),
        {
            let g = transform.apply_geometry(local[i]);
            proof {
                assert(self@.0[i as int] == position_points(local@)[i as int]);
            }
            out.push(g);
        }
        let t = TransformedVertices { vertices: out };
        assert(t@ =~= transformed_points(self@.0, transform));
        t
    }

    /// Bounding box of the transformed vertices.
    pub fn aabb(self, transform: Transform) -> (b: Aabb)
        ensures
            b@ == convex_bounds(self@.0, transform),
    {
        let vertices = self.transformed_vertices(transform);
        let ghost pts = transformed_points(self@.0, transform);
        let points = vertices.as_slice();
        let n = points.len();
        proof {
            use_type_invariant(&self);
        }
        let mut min = points[0];
        let mut max = points[0];
        for i in 1..n
            invariant
                n == pts.len(),
                n >= 3,
                points@.len() == n,
                forall|j: int| 0 <= j < n ==> ((#[trigger] points@[j])@.0 as int, points@[j]@.1 as int) == pts[j],
                min@.0 as int == seq_min(xs(pts), i as int),
                min@.1 as int == seq_min(ys(pts), i as int),
                max@.0 as int == seq_max(xs(pts), i as int),
                max@.1 as int == seq_max(ys(pts), i as int),
                min@.0 <= max@.0,
                min@.1 <= max@.1,
        {
            let p = points[i].raw();
            let lo = min.raw();
            let hi = max.raw();
            let min_x = if p[0] < lo[0] { p[0] } else { lo[0] };
            let min_y = if p[1] < lo[1] { p[1] } else { lo[1] };
            let max_x = if p[0] > hi[0] { p[0] } else { hi[0] };
            let max_y = if p[1] > hi[1] { p[1] } else { hi[1] };
            min = GeometryPoint::from_i32_unchecked(min_x, min_y);
            max = GeometryPoint::from_i32_unchecked(max_x, max_y);
        }
        Aabb::from_points(min, max)
    }

    /// `(twice the area, Σ inertia terms)` of the local polygon: the inertia
    /// about the origin per unit mass is the second over six times the first.
    pub fn inertia_integrals(self) -> (r: (u64, u128))
        ensures
            r.0 as int == twice_area_of(self@.0),
            r.1 as int == inertia_sum_of(self@.0),
            r.0 > 0,
            r.1 > 0,
            r.0 < 0x100_0000_0000_0000,
            r.1 < 0x1_0000_0000_0000_0000_0000_0000_0000,
    {
        proof {
            use_type_invariant(&self);
            lemma_convex_area_and_inertia_positive(self@.0);
        }
        let vertices = self.vertices();
        let ghost u = self@.0;
        let n = vertices.len();
        let mut twice_area: i128 = 0;
        let mut inertia_numerator: i128 = 0;
        for index in 0..n
            invariant
                n == u.len(),
                3 <= n <= MAX_CONVEX_VERTICES,
                position_points(vertices@) == u,
                u == self@.0,
                twice_area as int == twice_area_upto(u, index as int),
                inertia_numerator as int == inertia_sum_upto(u, index as int),
                -index * 0x20_0000_0000_0000 <= twice_area <= index * 0x20_0000_0000_0000,
                -index * 0x1000_0000_0000_0000_0000_0000_0000 <= inertia_numerator
                    <= index * 0x1000_0000_0000_0000_0000_0000_0000,
        {
            let next = if index + 1 >= n { 0 } else { index + 1 };
            let a = vertices[index].raw();
            let b = vertices[next].raw();
            proof {
                assert(u[index as int] == position_points(vertices@)[index as int]);
                assert(u[next as int] == position_points(vertices@)[next as int]);
                assert(u[index as int].0 == self.vertices@[index as int]@.0 * PACKED_QUANTUM);
                assert(u[index as int].1 == self.vertices@[index as int]@.1 * PACKED_QUANTUM);
                assert(u[next as int].0 == self.vertices@[next as int]@.0 * PACKED_QUANTUM);
                assert(u[next as int].1 == self.vertices@[next as int]@.1 * PACKED_QUANTUM);
                lemma_inertia_term_bounds(u[index as int], u[next as int]);
                assert(next_index(n as int, index as int) == next);
            }
            let ax = a[0] as i128;
            let ay = a[1] as i128;
            let bx = b[0] as i128;
            let by = b[1] as i128;
            let cross = ax * by - ay * bx;
            let quadratic = (ax * ax + ay * ay) + (ax * bx + ay * by) + (bx * bx + by * by);
            twice_area = twice_area + cross;
            inertia_numerator = inertia_numerator + cross * quadratic;
        }
        (twice_area as u64, inertia_numerator as u128)
    }

    /// Reciprocal moment of inertia of a uniform polygon about the local
    /// origin, unsigned Q40.
    pub fn inverse_inertia_q40(self, inverse_mass_q24: u32) -> (i: u64)
        ensures
            i == div_round_shift_spec(
                (6 * inverse_mass_q24 * twice_area_of(self@.0)) as nat,
                inertia_sum_of(self@.0) as nat,
                48,
            ),
    {
        let integrals = self.inertia_integrals();
        let twice_area = integrals.0;
        let inertia_numerator = integrals.1;
        proof {
            assert(inverse_mass_q24 as u128 * 6 * twice_area as u128 <= 0xffff_ffff * 6 * 0x100_0000_0000_0000) by (nonlinear_arith)
                requires twice_area < 0x100_0000_0000_0000;
        }
        from_q24_per_q32_ratio(inverse_mass_q24 as u128 * 6 * twice_area as u128, inertia_numerator)
    }

    /// Proportional `(mass_weight, mass_weight * I/m)` values used to
    /// distribute a composite body's mass by part area.
    pub fn mass_properties(self) -> (r: (u64, u128))
        ensures
            (r.0 as int, r.1 as int) == convex_mass_properties(self@.0),
            0 < r.1 < 0x1_0000_0000_0000_0000_0000_0000_0000,
    {
        let integrals = self.inertia_integrals();
        (integrals.0 * 6, integrals.1)
    }
}

proof fn lemma_inertia_term_bounds(a: (int, int), b: (int, int))
    requires
        -0x400_0000 <= a.0 <= 0x400_0000,
        -0x400_0000 <= a.1 <= 0x400_0000,
        -0x400_0000 <= b.0 <= 0x400_0000,
        -0x400_0000 <= b.1 <= 0x400_0000,
    ensures
        -0x20_0000_0000_0000 <= pt_cross(a, b) <= 0x20_0000_0000_0000,
        -0x1000_0000_0000_0000_0000_0000_0000 <= inertia_term(a, b) <= 0x1000_0000_0000_0000_0000_0000_0000,
        0 <= pt_dot(a, a) + pt_dot(a, b) + pt_dot(b, b) <= 0x60_0000_0000_0000,
        -0x10_0000_0000_0000 <= a.0 * b.1 <= 0x10_0000_0000_0000,
        -0x10_0000_0000_0000 <= a.1 * b.0 <= 0x10_0000_0000_0000,
        -0x10_0000_0000_0000 <= a.0 * b.0 <= 0x10_0000_0000_0000,
        -0x10_0000_0000_0000 <= a.1 * b.1 <= 0x10_0000_0000_0000,
        0 <= a.0 * a.0 <= 0x10_0000_0000_0000,
        0 <= a.1 * a.1 <= 0x10_0000_0000_0000,
        0 <= b.0 * b.0 <= 0x10_0000_0000_0000,
        0 <= b.1 * b.1 <= 0x10_0000_0000_0000,
{
    let (ax, ay, bx, by) = (a.0, a.1, b.0, b.1);
    assert(-0x20_0000_0000_0000 <= ax * by - ay * bx <= 0x20_0000_0000_0000) by (nonlinear_arith)
        requires
            -0x400_0000 <= ax <= 0x400_0000, -0x400_0000 <= ay <= 0x400_0000,
            -0x400_0000 <= bx <= 0x400_0000, -0x400_0000 <= by <= 0x400_0000,
    ;
    assert(0 <= ax * ax <= 0x10_0000_0000_0000) by (nonlinear_arith)
        requires -0x400_0000 <= ax <= 0x400_0000;
    assert(0 <= ay * ay <= 0x10_0000_0000_0000) by (nonlinear_arith)
        requires -0x400_0000 <= ay <= 0x400_0000;
    assert(0 <= bx * bx <= 0x10_0000_0000_0000) by (nonlinear_arith)
        requires -0x400_0000 <= bx <= 0x400_0000;
    assert(0 <= by * by <= 0x10_0000_0000_0000) by (nonlinear_arith)
        requires -0x400_0000 <= by <= 0x400_0000;
    assert(-0x10_0000_0000_0000 <= ax * bx <= 0x10_0000_0000_0000) by (nonlinear_arith)
        requires -0x400_0000 <= ax <= 0x400_0000, -0x400_0000 <= bx <= 0x400_0000;
    assert(-0x10_0000_0000_0000 <= ay * by <= 0x10_0000_0000_0000) by (nonlinear_arith)
        requires -0x400_0000 <= ay <= 0x400_0000, -0x400_0000 <= by <= 0x400_0000;
    assert(-0x10_0000_0000_0000 <= ax * by <= 0x10_0000_0000_0000) by (nonlinear_arith)
        requires -0x400_0000 <= ax <= 0x400_0000, -0x400_0000 <= by <= 0x400_0000;
    assert(-0x10_0000_0000_0000 <= ay * bx <= 0x10_0000_0000_0000) by (nonlinear_arith)
        requires -0x400_0000 <= ay <= 0x400_0000, -0x400_0000 <= bx <= 0x400_0000;
    let sx = ax + bx;
    let sy = ay + by;
    assert(2 * ((ax * ax + ay * ay) + (ax * bx + ay * by) + (bx * bx + by * by))
        == sx * sx + sy * sy + ax * ax + ay * ay + bx * bx + by * by) by (nonlinear_arith)
        requires sx == ax + bx, sy == ay + by;
    assert(sx * sx >= 0 && sy * sy >= 0) by (nonlinear_arith);
    let c = ax * by - ay * bx;
    let q = (ax * ax + ay * ay) + (ax * bx + ay * by) + (bx * bx + by * by);
    assert(-0x1000_0000_0000_0000_0000_0000_0000 <= c * q <= 0x1000_0000_0000_0000_0000_0000_0000) by (nonlinear_arith)
        requires
            -0x20_0000_0000_0000 <= c <= 0x20_0000_0000_0000,
            0 <= q <= 0x60_0000_0000_0000,
    ;
}

} // verus!
