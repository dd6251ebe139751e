use i_physics::geometry::GeometryPoint;
use i_physics::quantity::{Angle, Force, Length, Position};
use i_physics::{BodyId, DistanceJoint, MouseJoint, RopeJoint, Transform};

fn meters(value: f64) -> i32 {
    (value * 65_536.0).round() as i32
}

fn metres_position(x: f64, y: f64) -> Position {
    Position::from_i32(meters(x), meters(y))
}

fn raw_point(position: Position) -> [i32; 2] {
    position.raw()
}

fn geometry_raw(point: GeometryPoint) -> [i32; 2] {
    point.raw()
}

#[test]
fn distance_response_is_bounded_to_one_tick() {
    let mut joint = DistanceJoint::new(BodyId::new(1), Position::zero(), BodyId::new(2), Position::zero(), Length::zero(), Force::zero());
    joint.set_response_raw(u32::MAX);

    assert_eq!(joint.response_raw(), 1 << 16);
}

#[test]
fn rope_response_is_bounded_to_one_tick() {
    let mut joint = RopeJoint::new(BodyId::new(1), Position::zero(), BodyId::new(2), Position::zero(), Length::zero(), Force::zero());
    joint.set_response_raw(u32::MAX);

    assert_eq!(joint.response_raw(), 1 << 16);
}

#[test]
fn mouse_response_is_bounded_to_one_tick() {
    let mut joint = MouseJoint::new(BodyId::new(1), Position::zero(), Position::zero(), Force::zero());
    joint.set_response_raw(u32::MAX);

    assert_eq!(joint.response_raw(), 1 << 16);
}

#[test]
fn two_body_joints_canonicalize_endpoints_and_anchors() {
    let anchor_a = metres_position(0.25, 0.0);
    let anchor_b = metres_position(-0.5, 0.0);
    let force = Force::from_raw(10 << 16);
    let length = Length::from_raw(1 << 16).unwrap();
    let distance = DistanceJoint::new(BodyId::new(9), anchor_a, BodyId::new(2), anchor_b, length, force);
    let rope = RopeJoint::new(BodyId::new(9), anchor_a, BodyId::new(2), anchor_b, length, force);

    assert_eq!((distance.body_a(), distance.body_b()), (BodyId::new(2), BodyId::new(9)));
    assert_eq!(distance.local_anchor_a(), anchor_b);
    assert_eq!(distance.local_anchor_b(), anchor_a);
    assert_eq!((rope.body_a(), rope.body_b()), (BodyId::new(2), BodyId::new(9)));
    assert_eq!(rope.local_anchor_a(), anchor_b);
    assert_eq!(rope.local_anchor_b(), anchor_a);
    assert_eq!(
        DistanceJoint::new(BodyId::new(2), anchor_b, BodyId::new(9), anchor_a, length, force),
        distance
    );
}

#[test]
fn world_point_constructors_preserve_both_rotated_anchors() {
    let transform_a = Transform::new(metres_position(-2.0, 1.0), Angle::quarter_turn());
    let transform_b = Transform::new(metres_position(3.0, -1.0), Angle::three_quarter_turn());
    let anchor_a = metres_position(-2.5, 2.0);
    let anchor_b = metres_position(3.5, 0.0);
    let joint = DistanceJoint::between_world_points(
        BodyId::new(1),
        transform_a,
        anchor_a,
        BodyId::new(2),
        transform_b,
        anchor_b,
        Force::from_raw(10 << 16),
    )
    .unwrap();

    assert_eq!(geometry_raw(joint.world_anchor_a(transform_a)), raw_point(anchor_a));
    assert_eq!(geometry_raw(joint.world_anchor_b(transform_b)), raw_point(anchor_b));
    assert!((joint.length().raw() as f64 / 65_536.0 - 6.324_55).abs() < 0.000_02);
}

#[test]
fn world_constructor_preserves_rotated_anchor() {
    let transform = Transform::new(metres_position(2.0, 3.0), Angle::quarter_turn());
    let anchor = metres_position(1.5, 4.0);
    let joint = MouseJoint::at_world_point(BodyId::new(1), transform, anchor, Force::from_raw(10 << 16));

    assert_eq!(joint.local_anchor().raw(), [meters(1.0), meters(0.5)]);
    assert_eq!(geometry_raw(joint.world_anchor(transform)), raw_point(anchor));
    assert_eq!(joint.target(), anchor);
}

#[test]
fn between_world_points_rejects_distances_beyond_length_range() {
    let far_a = Position::from_i32(Position::MIN_POSITION, 0);
    let far_b = Position::from_i32(Position::MAX_POSITION, Position::MAX_POSITION);
    let rope = RopeJoint::between_world_points(
        BodyId::new(1),
        Transform::identity(),
        far_a,
        BodyId::new(2),
        Transform::identity(),
        far_b,
        Force::zero(),
    );
    assert!(rope.is_none());
}
