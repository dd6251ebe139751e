use vstd::prelude::*;

use crate::body::BodyId;
use crate::collider::composite::simple_bounds;
use crate::collider::convex::transformed_points;
use crate::collider::{Collider, CompositeCollider, SimpleCollider};
use crate::quantity::length::MAX_LENGTH;
use crate::transform::{Transform, transform_point};
use super::circle_circle::{self, circles_touch, is_circle_contact, normal_along, offset_point};
use super::circle_convex::{self, CircleConvexHit, circle_convex_hit, is_circle_convex_contact, rotated_normals};
use super::contact::{ColliderFeature, Contact, ContactData, ContactManifold, contact_matches};
use super::convex_convex::{self, convex_manifold};

verus! {

/// Geometry of a manifold: first contact and optional second contact.
pub type ManifoldData = (ContactData, Option<ContactData>);

/// A manifold as observed: `(body A, body B, geometry, part of A, part of B)`.
pub type ManifoldRecord = (BodyId, BodyId, ManifoldData, Option<usize>, Option<usize>);

/// Geometry of a contact.
pub open spec fn contact_data(c: Contact) -> ContactData {
    (
        (c.point@.0 as int, c.point@.1 as int),
        (c.normal@.0 as int, c.normal@.1 as int),
        c.penetration@ as int,
        c.feature_a,
        c.feature_b,
    )
}

/// Both contacts of the manifold join the same bodies and parts.
pub open spec fn manifold_uniform(m: ContactManifold) -> bool {
    match m.second {
        Some(c) => c.body_a == m.first.body_a && c.body_b == m.first.body_b && c.part_a == m.first.part_a
            && c.part_b == m.first.part_b,
        None => true,
    }
}

/// `after` keeps `before` as its prefix and appends only manifolds whose
/// contacts agree on bodies and parts.
pub open spec fn extends_uniformly(before: Seq<ContactManifold>, after: Seq<ContactManifold>) -> bool {
    &&& before.len() <= after.len()
    &&& after.subrange(0, before.len() as int) == before
    &&& forall|k: int| before.len() <= k < after.len() ==> manifold_uniform(#[trigger] after[k])
}

proof fn lemma_extends_transitive(a: Seq<ContactManifold>, b: Seq<ContactManifold>, c: Seq<ContactManifold>)
    requires
        extends_uniformly(a, b),
        extends_uniformly(b, c),
    ensures
        extends_uniformly(a, c),
{
    assert(c.subrange(0, a.len() as int) =~= a) by {
        assert forall|k: int| 0 <= k < a.len() implies c.subrange(0, a.len() as int)[k] == a[k] by {
            assert(c.subrange(0, b.len() as int)[k] == b[k]);
            assert(b.subrange(0, a.len() as int)[k] == a[k]);
        }
    }
    assert forall|k: int| a.len() <= k < c.len() implies manifold_uniform(#[trigger] c[k]) by {
        if k < b.len() {
            assert(c.subrange(0, b.len() as int)[k] == b[k]);
        }
    }
}

/// The manifold as observed.
pub open spec fn manifold_record(m: ContactManifold) -> ManifoldRecord {
    (
        m.first.body_a,
        m.first.body_b,
        (contact_data(m.first), match m.second {
            Some(c) => Some(contact_data(c)),
            None => None,
        }),
        m.first.part_a,
        m.first.part_b,
    )
}

/// Records of a list of manifolds.
pub open spec fn records(ms: Seq<ContactManifold>) -> Seq<ManifoldRecord> {
    Seq::new(ms.len(), |i: int| manifold_record(ms[i]))
}

/// Contact geometry of two circles of radii `ra`, `rb` at `ca`, `cb`.
pub open spec fn circle_pair_data(ra: int, ca: (int, int), rb: int, cb: (int, int)) -> Option<ContactData> {
    if !circles_touch(ra, ca, rb, cb) {
        None
    } else {
        let d = (cb.0 - ca.0, cb.1 - ca.1);
        let distance = crate::ops::isqrt_spec(d.0 * d.0 + d.1 * d.1);
        let penetration = ra + rb - distance;
        let normal = normal_along(d);
        Some((offset_point(ca, normal, ra - penetration / 2), normal, penetration, ColliderFeature::Circle, ColliderFeature::Circle))
    }
}

/// Contact geometry of a circle hit against a convex, seen from the circle.
pub open spec fn circle_hit_data(center: (int, int), radius: int, hit: CircleConvexHit) -> ContactData {
    let penetration = if hit.1 > MAX_LENGTH { MAX_LENGTH as int } else { hit.1 };
    (offset_point(center, hit.0, radius - penetration / 2), hit.0, penetration, ColliderFeature::Circle, hit.2)
}

/// The same contact geometry seen from the other body.
pub open spec fn flip_data(d: ContactData) -> ContactData {
    (d.0, (-d.1.0, -d.1.1), d.2, d.4, d.3)
}

/// Narrow-phase manifold geometry of two simple colliders.
pub open spec fn simple_pair(a: SimpleCollider, ta: Transform, b: SimpleCollider, tb: Transform) -> Option<ManifoldData> {
    match (a, b) {
        (SimpleCollider::Circle(x), SimpleCollider::Circle(y)) => {
            match circle_pair_data(
                x@.1 as int,
                transform_point(ta, (x@.0.0 as int, x@.0.1 as int)),
                y@.1 as int,
                transform_point(tb, (y@.0.0 as int, y@.0.1 as int)),
            ) {
                Some(d) => Some((d, None)),
                None => None,
            }
        },
        (SimpleCollider::Circle(c), SimpleCollider::Convex(v)) => {
            let center = transform_point(ta, (c@.0.0 as int, c@.0.1 as int));
            match circle_convex_hit(center, c@.1 as int, transformed_points(v@.0, tb), rotated_normals(v@.1, tb)) {
                Some(hit) => Some((circle_hit_data(center, c@.1 as int, hit), None)),
                None => None,
            }
        },
        (SimpleCollider::Convex(v), SimpleCollider::Circle(c)) => {
            let center = transform_point(tb, (c@.0.0 as int, c@.0.1 as int));
            match circle_convex_hit(center, c@.1 as int, transformed_points(v@.0, ta), rotated_normals(v@.1, ta)) {
                Some(hit) => Some((flip_data(circle_hit_data(center, c@.1 as int, hit)), None)),
                None => None,
            }
        },
        (SimpleCollider::Convex(x), SimpleCollider::Convex(y)) => convex_manifold(
            transformed_points(x@.0, ta),
            rotated_normals(x@.1, ta),
            transformed_points(y@.0, tb),
            rotated_normals(y@.1, tb),
        ),
    }
}

/// Two bounding boxes overlap, borders included.
pub open spec fn bounds_overlap(a: (i32, i32, i32, i32), b: (i32, i32, i32, i32)) -> bool {
    a.0 <= b.1 && a.1 >= b.0 && a.2 <= b.3 && a.3 >= b.2
}

/// Record of one simple pair, when the narrow phase finds contact.
pub open spec fn pair_records(
    body_a: BodyId,
    a: SimpleCollider,
    ta: Transform,
    body_b: BodyId,
    b: SimpleCollider,
    tb: Transform,
    part_a: Option<usize>,
    part_b: Option<usize>,
) -> Seq<ManifoldRecord> {
    match simple_pair(a, ta, b, tb) {
        Some(d) => seq![(body_a, body_b, d, part_a, part_b)],
        None => Seq::empty(),
    }
}

/// Records of a part pair whose bounding boxes overlap.
pub open spec fn culled_pair_records(
    body_a: BodyId,
    a: SimpleCollider,
    ta: Transform,
    body_b: BodyId,
    b: SimpleCollider,
    tb: Transform,
    part_a: Option<usize>,
    part_b: Option<usize>,
) -> Seq<ManifoldRecord> {
    if bounds_overlap(simple_bounds(a, ta), simple_bounds(b, tb)) {
        pair_records(body_a, a, ta, body_b, b, tb, part_a, part_b)
    } else {
        Seq::empty()
    }
}

/// Records of part `i` of A against parts `0..j` of B.
pub open spec fn row_records(
    body_a: BodyId,
    a: Seq<SimpleCollider>,
    ta: Transform,
    body_b: BodyId,
    b: Seq<SimpleCollider>,
    tb: Transform,
    i: int,
    j: int,
) -> Seq<ManifoldRecord>
    decreases j,
{
    if j <= 0 {
        Seq::empty()
    } else {
        row_records(body_a, a, ta, body_b, b, tb, i, j - 1)
            + culled_pair_records(body_a, a[i], ta, body_b, b[j - 1], tb, Some(i as usize), Some((j - 1) as usize))
    }
}

/// Records of parts `0..i` of A against every part of B.
pub open spec fn grid_records(
    body_a: BodyId,
    a: Seq<SimpleCollider>,
    ta: Transform,
    body_b: BodyId,
    b: Seq<SimpleCollider>,
    tb: Transform,
    i: int,
) -> Seq<ManifoldRecord>
    decreases i,
{
    if i <= 0 {
        Seq::empty()
    } else {
        grid_records(body_a, a, ta, body_b, b, tb, i - 1) + row_records(body_a, a, ta, body_b, b, tb, i - 1, b.len() as int)
    }
}

/// Records of parts `0..i` of A against the simple collider `b`.
pub open spec fn left_records(
    body_a: BodyId,
    a: Seq<SimpleCollider>,
    ta: Transform,
    body_b: BodyId,
    b: SimpleCollider,
    tb: Transform,
    i: int,
) -> Seq<ManifoldRecord>
    decreases i,
{
    if i <= 0 {
        Seq::empty()
    } else {
        left_records(body_a, a, ta, body_b, b, tb, i - 1)
            + culled_pair_records(body_a, a[i - 1], ta, body_b, b, tb, Some((i - 1) as usize), None)
    }
}

/// Records of the simple collider `a` against parts `0..j` of B.
pub open spec fn right_records(
    body_a: BodyId,
    a: SimpleCollider,
    ta: Transform,
    body_b: BodyId,
    b: Seq<SimpleCollider>,
    tb: Transform,
    j: int,
) -> Seq<ManifoldRecord>
    decreases j,
{
    if j <= 0 {
        Seq::empty()
    } else {
        right_records(body_a, a, ta, body_b, b, tb, j - 1)
            + culled_pair_records(body_a, a, ta, body_b, b[j - 1], tb, None, Some((j - 1) as usize))
    }
}

/// The simple collider of a non-composite collider.
pub open spec fn as_simple(c: Collider) -> SimpleCollider {
    match c {
        Collider::Circle(circle) => SimpleCollider::Circle(circle),
        Collider::Convex(convex) => SimpleCollider::Convex(convex),
        Collider::Composite(_) => SimpleCollider::Circle(arbitrary()),
    }
}

/// Every manifold generated for a collider pair, in order: composites are
/// expanded part by part (A's parts outermost) and pairs whose part bounding
/// boxes do not overlap are skipped.
pub open spec fn collider_records(body_a: BodyId, a: Collider, ta: Transform, body_b: BodyId, b: Collider, tb: Transform) -> Seq<ManifoldRecord> {
    match (a, b) {
        (Collider::Composite(x), Collider::Composite(y)) => grid_records(body_a, x@, ta, body_b, y@, tb, x@.len() as int),
        (Collider::Composite(x), _) => left_records(body_a, x@, ta, body_b, as_simple(b), tb, x@.len() as int),
        (_, Collider::Composite(y)) => right_records(body_a, as_simple(a), ta, body_b, y@, tb, y@.len() as int),
        _ => pair_records(body_a, as_simple(a), ta, body_b, as_simple(b), tb, None, None),
    }
}

proof fn lemma_row_complete(
    body_a: BodyId,
    a: Seq<SimpleCollider>,
    ta: Transform,
    body_b: BodyId,
    b: Seq<SimpleCollider>,
    tb: Transform,
    i: int,
    j: int,
    k: int,
    record: ManifoldRecord,
)
    requires
        0 <= j < k,
        culled_pair_records(body_a, a[i], ta, body_b, b[j], tb, Some(i as usize), Some(j as usize)) == seq![record],
    ensures
        row_records(body_a, a, ta, body_b, b, tb, i, k).contains(record),
    decreases k,
{
    let prefix = row_records(body_a, a, ta, body_b, b, tb, i, k - 1);
    let last = culled_pair_records(body_a, a[i], ta, body_b, b[k - 1], tb, Some(i as usize), Some((k - 1) as usize));
    if j == k - 1 {
        assert((prefix + last)[prefix.len() as int] == record);
    } else {
        lemma_row_complete(body_a, a, ta, body_b, b, tb, i, j, k - 1, record);
        let m = choose|m: int| 0 <= m < prefix.len() && prefix[m] == record;
        assert((prefix + last)[m] == record);
    }
}

proof fn lemma_grid_complete(
    body_a: BodyId,
    a: Seq<SimpleCollider>,
    ta: Transform,
    body_b: BodyId,
    b: Seq<SimpleCollider>,
    tb: Transform,
    i: int,
    j: int,
    k: int,
    record: ManifoldRecord,
)
    requires
        0 <= i < k,
        0 <= j < b.len(),
        culled_pair_records(body_a, a[i], ta, body_b, b[j], tb, Some(i as usize), Some(j as usize)) == seq![record],
    ensures
        grid_records(body_a, a, ta, body_b, b, tb, k).contains(record),
    decreases k,
{
    let prefix = grid_records(body_a, a, ta, body_b, b, tb, k - 1);
    let row = row_records(body_a, a, ta, body_b, b, tb, k - 1, b.len() as int);
    if i == k - 1 {
        lemma_row_complete(body_a, a, ta, body_b, b, tb, i, j, b.len() as int, record);
        let m = choose|m: int| 0 <= m < row.len() && row[m] == record;
        assert((prefix + row)[prefix.len() + m] == record);
    } else {
        lemma_grid_complete(body_a, a, ta, body_b, b, tb, i, j, k - 1, record);
        let m = choose|m: int| 0 <= m < prefix.len() && prefix[m] == record;
        assert((prefix + row)[m] == record);
    }
}

/// Where culled part pair `(i, j)` has a manifold.
pub open spec fn part_pair_yields(
    body_a: BodyId,
    a: Seq<SimpleCollider>,
    ta: Transform,
    body_b: BodyId,
    b: Seq<SimpleCollider>,
    tb: Transform,
    i: int,
    j: int,
    record: ManifoldRecord,
) -> bool {
    &&& 0 <= i < a.len()
    &&& 0 <= j < b.len()
    &&& culled_pair_records(body_a, a[i], ta, body_b, b[j], tb, Some(i as usize), Some(j as usize)) == seq![record]
}

proof fn lemma_row_sound(
    body_a: BodyId,
    a: Seq<SimpleCollider>,
    ta: Transform,
    body_b: BodyId,
    b: Seq<SimpleCollider>,
    tb: Transform,
    i: int,
    k: int,
    m: int,
)
    requires
        0 <= i < a.len(),
        k <= b.len(),
        0 <= m < row_records(body_a, a, ta, body_b, b, tb, i, k).len(),
    ensures
        exists|j: int| j < k && #[trigger] part_pair_yields(body_a, a, ta, body_b, b, tb, i, j,
            row_records(body_a, a, ta, body_b, b, tb, i, k)[m]),
    decreases k,
{
    let prefix = row_records(body_a, a, ta, body_b, b, tb, i, k - 1);
    let last = culled_pair_records(body_a, a[i], ta, body_b, b[k - 1], tb, Some(i as usize), Some((k - 1) as usize));
    let whole = row_records(body_a, a, ta, body_b, b, tb, i, k);
    assert(whole == prefix + last);
    if m < prefix.len() {
        lemma_row_sound(body_a, a, ta, body_b, b, tb, i, k - 1, m);
        assert(whole[m] == prefix[m]);
        let j = choose|j: int| j < k - 1 && #[trigger] part_pair_yields(body_a, a, ta, body_b, b, tb, i, j, prefix[m]);
        assert(part_pair_yields(body_a, a, ta, body_b, b, tb, i, j, whole[m]));
    } else {
        assert(last.len() == 1);
        assert(last =~= seq![whole[m]]);
        assert(part_pair_yields(body_a, a, ta, body_b, b, tb, i, k - 1, whole[m]));
    }
}

proof fn lemma_grid_sound(
    body_a: BodyId,
    a: Seq<SimpleCollider>,
    ta: Transform,
    body_b: BodyId,
    b: Seq<SimpleCollider>,
    tb: Transform,
    k: int,
    m: int,
)
    requires
        k <= a.len(),
        0 <= m < grid_records(body_a, a, ta, body_b, b, tb, k).len(),
    ensures
        exists|i: int, j: int| #[trigger] part_pair_yields(body_a, a, ta, body_b, b, tb, i, j,
            grid_records(body_a, a, ta, body_b, b, tb, k)[m]),
    decreases k,
{
    let prefix = grid_records(body_a, a, ta, body_b, b, tb, k - 1);
    let row = row_records(body_a, a, ta, body_b, b, tb, k - 1, b.len() as int);
    let whole = grid_records(body_a, a, ta, body_b, b, tb, k);
    assert(whole == prefix + row);
    if m < prefix.len() {
        lemma_grid_sound(body_a, a, ta, body_b, b, tb, k - 1, m);
        assert(whole[m] == prefix[m]);
        let (i, j) = choose|i: int, j: int| #[trigger] part_pair_yields(body_a, a, ta, body_b, b, tb, i, j, prefix[m]);
        assert(part_pair_yields(body_a, a, ta, body_b, b, tb, i, j, whole[m]));
    } else {
        lemma_row_sound(body_a, a, ta, body_b, b, tb, k - 1, b.len() as int, m - prefix.len());
        assert(whole[m] == row[m - prefix.len()]);
        let j = choose|j: int| j < b.len() && #[trigger] part_pair_yields(body_a, a, ta, body_b, b, tb, k - 1, j, row[m - prefix.len()]);
        assert(part_pair_yields(body_a, a, ta, body_b, b, tb, k - 1, j, whole[m]));
    }
}

/// The record comes from some part pair.
pub open spec fn from_some_part_pair(
    body_a: BodyId,
    a: Seq<SimpleCollider>,
    ta: Transform,
    body_b: BodyId,
    b: Seq<SimpleCollider>,
    tb: Transform,
    record: ManifoldRecord,
) -> bool {
    exists|i: int, j: int| #[trigger] part_pair_yields(body_a, a, ta, body_b, b, tb, i, j, record)
}

/// Two composite colliders are tested part against part: every pair of parts
/// `(i, j)`, whatever the indices, whose bounding boxes overlap and whose
/// narrow phase finds contact contributes its manifold, and every manifold
/// produced comes from such a pair.
pub proof fn lemma_composite_pairs_all_collided(
    body_a: BodyId,
    x: CompositeCollider,
    ta: Transform,
    body_b: BodyId,
    y: CompositeCollider,
    tb: Transform,
)
    ensures
        forall|i: int, j: int, record: ManifoldRecord|
            #[trigger] part_pair_yields(body_a, x@, ta, body_b, y@, tb, i, j, record)
                ==> collider_records(body_a, Collider::Composite(x), ta, body_b, Collider::Composite(y), tb).contains(record),
        forall|m: int|
            #![trigger collider_records(body_a, Collider::Composite(x), ta, body_b, Collider::Composite(y), tb)[m]]
            0 <= m < collider_records(body_a, Collider::Composite(x), ta, body_b, Collider::Composite(y), tb).len()
                ==> from_some_part_pair(body_a, x@, ta, body_b, y@, tb,
                    collider_records(body_a, Collider::Composite(x), ta, body_b, Collider::Composite(y), tb)[m]),
{
    let a = x@;
    let b = y@;
    assert forall|i: int, j: int, record: ManifoldRecord|
        #[trigger] part_pair_yields(body_a, a, ta, body_b, b, tb, i, j, record)
            implies collider_records(body_a, Collider::Composite(x), ta, body_b, Collider::Composite(y), tb).contains(record) by {
        lemma_grid_complete(body_a, a, ta, body_b, b, tb, i, j, a.len() as int, record);
    }
    assert forall|m: int|
        #![trigger collider_records(body_a, Collider::Composite(x), ta, body_b, Collider::Composite(y), tb)[m]]
        0 <= m < collider_records(body_a, Collider::Composite(x), ta, body_b, Collider::Composite(y), tb).len()
            implies from_some_part_pair(body_a, x@, ta, body_b, y@, tb,
                collider_records(body_a, Collider::Composite(x), ta, body_b, Collider::Composite(y), tb)[m]) by {
        assert(collider_records(body_a, Collider::Composite(x), ta, body_b, Collider::Composite(y), tb)
            == grid_records(body_a, a, ta, body_b, b, tb, a.len() as int));
        lemma_grid_sound(body_a, a, ta, body_b, b, tb, a.len() as int, m);
        let (i, j) = choose|i: int, j: int| #[trigger] part_pair_yields(body_a, a, ta, body_b, b, tb, i, j,
            grid_records(body_a, a, ta, body_b, b, tb, a.len() as int)[m]);
        assert(part_pair_yields(body_a, x@, ta, body_b, y@, tb, i, j,
            collider_records(body_a, Collider::Composite(x), ta, body_b, Collider::Composite(y), tb)[m]));
    }
}

/// Narrow-phase dispatcher for collider pairs.
pub struct CollisionSolver {}

impl CollisionSolver {
    #[inline(always)]
    pub fn new() -> (s: Self) {
        Self {}
    }

    /// Appends every contact manifold of the collider pair to `out`.
    pub fn collide(
        &mut self,
        body_a: BodyId,
        collider_a: &Collider,
        transform_a: Transform,
        body_b: BodyId,
        collider_b: &Collider,
        transform_b: Transform,
        out: &mut Vec<ContactManifold>,
    )
        ensures
            records(final(out)@) == records(old(out)@) + collider_records(body_a, *collider_a, transform_a, body_b, *collider_b, transform_b),
            extends_uniformly(old(out)@, final(out)@),
    {
        let ghost initial = out@;
        proof {
            assert(initial.subrange(0, initial.len() as int) =~= initial);
        }
        match (collider_a, collider_b) {
            (Collider::Composite(a), Collider::Composite(b)) => {
                let parts_a = a.simple_colliders();
                let parts_b = b.simple_colliders();
                let ghost start = records(old(out)@);
                for i in 0..parts_a.len()
                    invariant
                        parts_a@ == a@,
                        parts_b@ == b@,
                        records(out@) == start + grid_records(body_a, a@, transform_a, body_b, b@, transform_b, i as int),
                        extends_uniformly(initial, out@),
                {
                    let simple_a = parts_a[i];
                    let aabb_a = simple_a.aabb(transform_a);
                    for j in 0..parts_b.len()
                        invariant
                            parts_a@ == a@,
                            parts_b@ == b@,
                            i < a@.len(),
                            simple_a == a@[i as int],
                            aabb_a@ == simple_bounds(simple_a, transform_a),
                            records(out@) == start + grid_records(body_a, a@, transform_a, body_b, b@, transform_b, i as int)
                                + row_records(body_a, a@, transform_a, body_b, b@, transform_b, i as int, j as int),
                            extends_uniformly(initial, out@),
                    {
                        let simple_b = parts_b[j];
                        if aabb_a.intersects(simple_b.aabb(transform_b)) {
                            let ghost before_call = out@;
                            Self::collide_simple(body_a, simple_a, transform_a, body_b, simple_b, transform_b, Some(i), Some(j), out);
                            proof {
                                lemma_extends_transitive(initial, before_call, out@);
                            }
                        }
                        proof {
                            assert(records(out@) =~= start + grid_records(body_a, a@, transform_a, body_b, b@, transform_b, i as int)
                                + row_records(body_a, a@, transform_a, body_b, b@, transform_b, i as int, j + 1));
                        }
                    }
                    proof {
                        assert(records(out@) =~= start + grid_records(body_a, a@, transform_a, body_b, b@, transform_b, i + 1));
                    }
                }
            },
            (Collider::Composite(a), _) => {
                let simple_b = match Self::as_simple(collider_b) {
                    Some(s) => s,
                    None => {
                        return;
                    },
                };
                let aabb_b = simple_b.aabb(transform_b);
                let parts_a = a.simple_colliders();
                let ghost start = records(old(out)@);
                for i in 0..parts_a.len()
                    invariant
                        parts_a@ == a@,
                        simple_b == as_simple(*collider_b),
                        aabb_b@ == simple_bounds(simple_b, transform_b),
                        records(out@) == start + left_records(body_a, a@, transform_a, body_b, simple_b, transform_b, i as int),
                        extends_uniformly(initial, out@),
                {
                    let simple_a = parts_a[i];
                    if simple_a.aabb(transform_a).intersects(aabb_b) {
                        let ghost before_call = out@;
                        Self::collide_simple(body_a, simple_a, transform_a, body_b, simple_b, transform_b, Some(i), None, out);
                        proof {
                            lemma_extends_transitive(initial, before_call, out@);
                        }
                    }
                    proof {
                        assert(records(out@) =~= start + left_records(body_a, a@, transform_a, body_b, simple_b, transform_b, i + 1));
                    }
                }
            },
            (_, Collider::Composite(b)) => {
                let simple_a = match Self::as_simple(collider_a) {
                    Some(s) => s,
                    None => {
                        return;
                    },
                };
                let aabb_a = simple_a.aabb(transform_a);
                let parts_b = b.simple_colliders();
                let ghost start = records(old(out)@);
                for j in 0..parts_b.len()
                    invariant
                        parts_b@ == b@,
                        simple_a == as_simple(*collider_a),
                        aabb_a@ == simple_bounds(simple_a, transform_a),
                        records(out@) == start + right_records(body_a, simple_a, transform_a, body_b, b@, transform_b, j as int),
                        extends_uniformly(initial, out@),
                {
                    let simple_b = parts_b[j];
                    if aabb_a.intersects(simple_b.aabb(transform_b)) {
                        let ghost before_call = out@;
                        Self::collide_simple(body_a, simple_a, transform_a, body_b, simple_b, transform_b, None, Some(j), out);
                        proof {
                            lemma_extends_transitive(initial, before_call, out@);
                        }
                    }
                    proof {
                        assert(records(out@) =~= start + right_records(body_a, simple_a, transform_a, body_b, b@, transform_b, j + 1));
                    }
                }
            },
            (_, _) => {
                let ghost start = records(old(out)@);
                let simple_a = match Self::as_simple(collider_a) {
                    Some(s) => s,
                    None => {
                        return;
                    },
                };
                let simple_b = match Self::as_simple(collider_b) {
                    Some(s) => s,
                    None => {
                        return;
                    },
                };
                let ghost before_call = out@;
                Self::collide_simple(body_a, simple_a, transform_a, body_b, simple_b, transform_b, None, None, out);
                proof {
                    lemma_extends_transitive(initial, before_call, out@);
                }
                assert(records(out@) =~= start + collider_records(body_a, *collider_a, transform_a, body_b, *collider_b, transform_b));
            },
        }
    }

    #[inline(always)]
    fn as_simple(collider: &Collider) -> (s: Option<SimpleCollider>)
        ensures
            s is Some <==> !(*collider is Composite),
            s matches Some(s) ==> s == as_simple(*collider),
    {
        match collider {
            Collider::Circle(circle) => Some(SimpleCollider::Circle(*circle)),
            Collider::Convex(convex) => Some(SimpleCollider::Convex(*convex)),
            Collider::Composite(_) => None,
        }
    }

    /// Appends the manifold of one simple pair, attributed to the given parts.
    fn collide_simple(
        body_a: BodyId,
        collider_a: SimpleCollider,
        transform_a: Transform,
        body_b: BodyId,
        collider_b: SimpleCollider,
        transform_b: Transform,
        part_a: Option<usize>,
        part_b: Option<usize>,
        out: &mut Vec<ContactManifold>,
    )
        ensures
            records(final(out)@) == records(old(out)@)
                + pair_records(body_a, collider_a, transform_a, body_b, collider_b, transform_b, part_a, part_b),
            extends_uniformly(old(out)@, final(out)@),
    {
        let ghost start = records(old(out)@);
        let manifold = match (collider_a, collider_b) {
            (SimpleCollider::Circle(a), SimpleCollider::Circle(b)) => {
                match circle_circle::collide_transformed(body_a, a, transform_a, body_b, b, transform_b) {
                    Some(contact) => Some(ContactManifold::one(contact)),
                    None => None,
                }
            },
            (SimpleCollider::Circle(circle), SimpleCollider::Convex(convex)) => {
                match circle_convex::collide(body_a, circle, transform_a, body_b, convex, transform_b) {
                    Some(contact) => Some(ContactManifold::one(contact)),
                    None => None,
                }
            },
            (SimpleCollider::Convex(convex), SimpleCollider::Circle(circle)) => {
                match circle_convex::collide(body_b, circle, transform_b, body_a, convex, transform_a) {
                    Some(contact) => Some(ContactManifold::one(contact.flipped())),
                    None => None,
                }
            },
            (SimpleCollider::Convex(a), SimpleCollider::Convex(b)) => {
                convex_convex::collide(body_a, a, transform_a, body_b, b, transform_b)
            },
        };
        if let Some(m) = manifold {
            let placed = m.with_parts(part_a, part_b);
            let ghost before_push = out@;
            out.push(placed);
            assert(out@.subrange(0, before_push.len() as int) =~= before_push);
            assert(records(out@) =~= start + pair_records(body_a, collider_a, transform_a, body_b, collider_b, transform_b, part_a, part_b));
        } else {
            assert(records(out@) =~= start + pair_records(body_a, collider_a, transform_a, body_b, collider_b, transform_b, part_a, part_b));
            assert(out@.subrange(0, out@.len() as int) =~= out@);
        }
    }
}

} // verus!
