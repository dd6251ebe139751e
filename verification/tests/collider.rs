use i_physics::collider::convex::PackedPosition;
use i_physics::collider::inertia::from_q24_per_q32_ratio;
use i_physics::collider::{
    Circle, CompositeCollider, Convex, ConvexError, SimpleCollider, RECOMMENDED_MAX_COMPOSITE_PARTS,
};
use i_physics::geometry::{Aabb, GeometryPoint};
use i_physics::quantity::{Angle, Length, Mass, Position};
use i_physics::Transform;

const QUANTUM_RAW: i32 = 1 << 11;

fn meters(value: f64) -> i32 {
    (value * 65_536.0).round() as i32
}

fn position(x: i32, y: i32) -> Position {
    Position::from_i32(x * QUANTUM_RAW, y * QUANTUM_RAW)
}

fn metres_position(x: f64, y: f64) -> Position {
    Position::from_i32(meters(x), meters(y))
}

#[test]
fn q24_per_q32_ratio_becomes_q40() {
    assert_eq!(from_q24_per_q32_ratio(1 << 24, 1 << 32), 1 << 40);
}

#[test]
fn radius_respects_world_limit() {
    assert!(Circle::new(Length::zero()).is_none());
    assert!(Circle::new(Length::from_raw(Position::MAX_POSITION as u32).unwrap()).is_some());
    assert!(Circle::new(Length::from_raw(Position::MAX_POSITION as u32 + 1).unwrap()).is_none());
}

#[test]
fn offset_circle_respects_combined_radius_limit() {
    let max = Position::MAX_POSITION;
    assert!(Circle::with_center(Position::from_i32(max - 10, 0), Length::from_raw(10).unwrap()).is_some());
    assert!(Circle::with_center(Position::from_i32(max - 10, 0), Length::from_raw(11).unwrap()).is_none());
}

#[test]
fn circle_aabb_can_extend_beyond_position_range() {
    let circle = Circle::new(Length::from_raw(Position::MAX_POSITION as u32).unwrap()).unwrap();
    let center = Position::from_i32(Position::MAX_POSITION, Position::MAX_POSITION);
    let aabb = circle.aabb(Transform::new(center, Angle::zero()));

    assert_eq!(aabb.max().raw()[0], 2 * Position::MAX_POSITION);
    assert!(aabb.max().raw()[0] > Position::MAX_POSITION);
}

#[test]
fn inverse_inertia_uses_radius_and_mass() {
    let circle = Circle::new(Length::from_raw(1 << 16).unwrap()).unwrap();

    assert_eq!(circle.inverse_inertia_q40(Mass::one().inverse_q24()), 2_u64 << 40);
}

#[test]
fn offset_center_adds_parallel_axis_inertia() {
    let circle =
        Circle::with_center(metres_position(1.0, 0.0), Length::from_raw(1 << 16).unwrap()).unwrap();

    // I / m = 1/2 + 1 = 3/2, therefore inverse inertia is 2/3.
    let actual = circle.inverse_inertia_q40(Mass::one().inverse_q24());
    let expected = ((2_u128 << 40) / 3) as u64;
    assert!(actual.abs_diff(expected) <= 1);
}

fn small_circle() -> SimpleCollider {
    Circle::new(Length::from_raw(1).unwrap()).unwrap().into()
}

#[test]
fn stores_parts_without_spare_capacity() {
    let composite = CompositeCollider::new(vec![small_circle(), small_circle()]);

    assert_eq!(composite.len(), 2);
    assert!(!composite.is_empty());
    assert_eq!(composite.simple_colliders().len(), 2);
}

#[test]
fn release_build_accepts_more_than_recommended_parts() {
    let composite = CompositeCollider::new(vec![small_circle(); RECOMMENDED_MAX_COMPOSITE_PARTS + 1]);
    assert_eq!(composite.len(), RECOMMENDED_MAX_COMPOSITE_PARTS + 1);
}

#[test]
fn combines_part_aabbs() {
    let left = Circle::with_center(metres_position(-2.0, 0.0), Length::from_raw(1 << 15).unwrap()).unwrap();
    let right = Circle::with_center(metres_position(3.0, 0.0), Length::from_raw(1 << 16).unwrap()).unwrap();
    let composite = CompositeCollider::new(vec![left.into(), right.into()]);

    let aabb = composite.aabb(Transform::identity());
    assert_eq!(aabb.min().raw(), [meters(-2.5), meters(-1.0)]);
    assert_eq!(aabb.max().raw(), [meters(4.0), meters(1.0)]);
}

#[test]
fn distributes_mass_by_area_and_includes_part_offsets() {
    let radius = Length::from_raw(1 << 16).unwrap();
    let left = Circle::with_center(metres_position(-1.0, 0.0), radius).unwrap();
    let right = Circle::with_center(metres_position(1.0, 0.0), radius).unwrap();
    let composite = CompositeCollider::new(vec![left.into(), right.into()]);

    // Each equal-area part has I/m = r²/2 + d² = 3/2, so the composite has
    // the same normalized inertia and inverse inertia 2/3.
    let actual = composite.inverse_inertia_q40(Mass::one().inverse_q24());
    let expected = ((2_u128 << 40) / 3) as u64;
    assert!(actual.abs_diff(expected) <= 1);
}

#[test]
fn packed_vertices_keep_convex_at_50_bytes() {
    assert_eq!(core::mem::size_of::<PackedPosition>(), 4);
    assert_eq!(core::mem::size_of::<Convex>(), 50);
}

#[test]
fn packed_vertices_use_symmetric_q5_truncation() {
    let positive = PackedPosition::new(metres_position(0.05, 0.0)).unwrap();
    let negative = PackedPosition::new(metres_position(-0.05, 0.0)).unwrap();

    assert_eq!(positive.unpack().raw()[0], 1 << 11);
    assert_eq!(negative.unpack().raw()[0], -(1 << 11));
    assert_eq!(positive.unpack().raw()[0] as f64 / 65_536.0, 0.03125);
    assert_eq!(negative.unpack().raw()[0] as f64 / 65_536.0, -0.03125);
}

#[test]
fn canonicalizes_clockwise_vertices() {
    let vertices = [position(-10, -10), position(-10, 10), position(10, 10), position(10, -10)];
    let convex = Convex::new(&vertices).unwrap();

    let unpacked = convex.vertices();
    let (a, b, c) = (unpacked[0], unpacked[1], unpacked[2]);
    assert!((b - a).cross(c - b) > 0);
    let counter_clockwise = [position(10, -10), position(10, 10), position(-10, 10), position(-10, -10)];
    assert_eq!(Convex::new(&counter_clockwise).unwrap(), convex);
}

#[test]
fn rejects_concave_polygon() {
    let result = Convex::new(&[
        position(0, 0),
        position(10, 0),
        position(5, 5),
        position(10, 10),
        position(0, 10),
    ]);

    assert_eq!(result, Err(ConvexError::NotConvex));
}

#[test]
fn cyclic_permutations_have_identical_storage() {
    let a = Convex::new(&[position(-10, -10), position(10, -10), position(10, 10), position(-10, 10)]).unwrap();
    let b = Convex::new(&[position(10, 10), position(-10, 10), position(-10, -10), position(10, -10)]).unwrap();

    assert_eq!(a, b);
}

#[test]
fn rejects_self_intersecting_order() {
    let result = Convex::new(&[
        position(0, 10),
        position(6, -8),
        position(-10, 3),
        position(10, 3),
        position(-6, -8),
    ]);

    assert_eq!(result, Err(ConvexError::NotConvex));
}

#[test]
fn rotated_aabb_is_deterministic() {
    let convex = Convex::new(&[position(-20, -10), position(20, -10), position(20, 10), position(-20, 10)]).unwrap();
    let aabb = convex.aabb(Transform::new(Position::zero(), Angle::quarter_turn()));

    assert_eq!(aabb.min().raw(), [-10 * QUANTUM_RAW, -20 * QUANTUM_RAW]);
    assert_eq!(aabb.max().raw(), [10 * QUANTUM_RAW, 20 * QUANTUM_RAW]);
}

#[test]
fn vertices_must_fit_packed_coordinate_limit() {
    let outside = (i16::MAX as i32 + 1) * QUANTUM_RAW;
    assert_eq!(
        Convex::new(&[Position::from_i32(outside, 0), position(0, 1), position(1, 0)]),
        Err(ConvexError::VertexOutsideLimit)
    );

    let max = i16::MAX as i32;
    assert!(Convex::new(&[position(max, 0), position(0, 1), position(0, -1)]).is_ok());
}

#[test]
fn convex_aabb_can_extend_beyond_position_range() {
    let world_max = Position::MAX_POSITION;
    let local_max = i16::MAX as i32 * QUANTUM_RAW;
    let convex = Convex::new(&[Position::from_i32(local_max, 0), position(0, 1), position(0, -1)]).unwrap();
    let aabb = convex.aabb(Transform::new(Position::from_i32(world_max, world_max), Angle::zero()));

    assert_eq!(aabb.max().raw()[0], world_max + local_max);
    assert!(aabb.max().raw()[0] > Position::MAX_POSITION);
}

#[test]
fn radial_limit_survives_non_cardinal_rotation_at_world_edge() {
    let world_max = Position::MAX_POSITION;
    let local_max = i16::MAX as i32 * QUANTUM_RAW;
    let convex = Convex::new(&[Position::from_i32(local_max, 0), position(0, 1), position(0, -1)]).unwrap();
    let vertices = convex.transformed_vertices(Transform::new(
        Position::from_i32(world_max, world_max),
        Angle::from_raw(0x1234_5678),
    ));

    assert!(vertices.as_slice().iter().all(|point| {
        let [x, y] = point.raw();
        x >= 0 && y >= 0
    }));
}

#[test]
fn square_inverse_inertia_is_three_halves_for_unit_mass() {
    let convex = Convex::new(&[
        metres_position(-1.0, -1.0),
        metres_position(1.0, -1.0),
        metres_position(1.0, 1.0),
        metres_position(-1.0, 1.0),
    ])
    .unwrap();

    assert_eq!(convex.inverse_inertia_q40(Mass::one().inverse_q24()), 3_u64 << 39);
}

#[test]
fn shifted_polygon_includes_parallel_axis_term() {
    let convex = Convex::new(&[
        metres_position(1.0, -1.0),
        metres_position(3.0, -1.0),
        metres_position(3.0, 1.0),
        metres_position(1.0, 1.0),
    ])
    .unwrap();

    // I / m = 2/3 + 2^2 = 14/3, hence inverse I = 3/14.
    let expected = ((3_u128 << 40) + 7) / 14;
    assert_eq!(convex.inverse_inertia_q40(Mass::one().inverse_q24()), expected as u64);
}

#[test]
fn convex_rejects_too_few_and_too_many_vertices() {
    assert_eq!(Convex::new(&[position(0, 0), position(1, 0)]), Err(ConvexError::TooFewVertices));
    let seven = [position(0, 0); 7];
    assert_eq!(Convex::new(&seven), Err(ConvexError::TooManyVertices));
}

#[test]
fn convex_rejects_duplicates_and_collinear_edges() {
    assert_eq!(
        Convex::new(&[position(0, 0), position(10, 0), position(0, 0), position(0, 10)]),
        Err(ConvexError::DuplicateVertex)
    );
    assert_eq!(
        Convex::new(&[position(0, 0), position(5, 0), position(10, 0), position(0, 10)]),
        Err(ConvexError::CollinearEdge)
    );
    // Two input points that only differ below the Q5 grid merge.
    assert_eq!(
        Convex::new(&[Position::from_i32(0, 0), Position::from_i32(100, 0), position(10, 0), position(0, 10)]),
        Err(ConvexError::DuplicateVertex)
    );
}

#[test]
fn reversed_and_rotated_inputs_store_the_same_polygon() {
    let base = [position(0, 0), position(8, -2), position(12, 6), position(3, 9), position(-4, 5)];
    let reference = Convex::new(&base).unwrap();
    for start in 0..base.len() {
        let mut rotated = base;
        rotated.rotate_left(start);
        assert_eq!(Convex::new(&rotated).unwrap(), reference);
        rotated.reverse();
        assert_eq!(Convex::new(&rotated).unwrap(), reference);
    }
    assert_eq!(reference.len(), 5);
    assert!(!reference.is_empty());
    assert_eq!(reference.vertices()[0], position(-4, 5));
}

#[test]
fn convex_normals_point_outward() {
    let convex = Convex::new(&[position(-10, -10), position(10, -10), position(10, 10), position(-10, 10)]).unwrap();
    let normals: Vec<[i32; 2]> = convex.normals().iter().map(|n| n.raw()).collect();

    assert_eq!(normals, vec![[0, -(1 << 30)], [1 << 30, 0], [0, 1 << 30], [-(1 << 30), 0]]);
}

#[test]
fn touching_boundaries_intersect() {
    let a = Aabb::from_min_max(GeometryPoint::from_i32_unchecked(0, 0), GeometryPoint::from_i32_unchecked(10, 10)).unwrap();
    let b = Aabb::from_min_max(GeometryPoint::from_i32_unchecked(10, 4), GeometryPoint::from_i32_unchecked(20, 6)).unwrap();

    assert!(a.intersects(b));
}

#[test]
fn validates_min_and_max() {
    assert!(Aabb::from_min_max(GeometryPoint::from_i32_unchecked(1, 0), GeometryPoint::from_i32_unchecked(0, 1)).is_none());
}

#[test]
fn union_contains_both_boundaries() {
    let a = Aabb::from_points(GeometryPoint::from_i32_unchecked(-5, 3), GeometryPoint::from_i32_unchecked(4, 8));
    let b = Aabb::from_points(GeometryPoint::from_i32_unchecked(2, -7), GeometryPoint::from_i32_unchecked(9, 5));
    let union = a.union(b);

    assert_eq!(union.min(), GeometryPoint::from_i32_unchecked(-5, -7));
    assert_eq!(union.max(), GeometryPoint::from_i32_unchecked(9, 8));
}

#[test]
fn separated_boundaries_do_not_intersect() {
    let a = Aabb::from_points(GeometryPoint::from_i32_unchecked(-5, 3), GeometryPoint::from_i32_unchecked(4, 8));
    let b = Aabb::from_points(GeometryPoint::from_i32_unchecked(5, 3), GeometryPoint::from_i32_unchecked(9, 8));
    assert!(!a.intersects(b));
    assert!(a.intersects(a.union(b)));
}
