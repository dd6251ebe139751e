use i_physics::collider::{Circle, Collider, CompositeCollider, Convex, SimpleCollider};
use i_physics::picking::{body_at_point, collider_contains, simple_collider_contains};
use i_physics::quantity::{Angle, AngularVelocity, Length, LinearAcceleration, LinearVelocity, Mass, Position};
use i_physics::{Body, BodyId, BodyState, Material, Transform, World, WorldSettings};

fn meters(value: f64) -> i32 {
    (value * 65_536.0).round() as i32
}

fn position(x: f64, y: f64) -> Position {
    Position::from_i32(meters(x), meters(y))
}

fn rectangle(half_width: f64, half_height: f64) -> Convex {
    Convex::new(&[
        position(-half_width, -half_height),
        position(half_width, -half_height),
        position(half_width, half_height),
        position(-half_width, half_height),
    ])
    .unwrap()
}

#[test]
fn pointer_hit_test_handles_circles_and_rotated_convexes() {
    let circle = Circle::new(Length::from_raw(meters(1.0) as u32).unwrap()).unwrap();
    let circle_collider: Collider = circle.into();
    let circle_transform = Transform::new(position(2.0, 3.0), Angle::zero());
    assert!(collider_contains(&circle_collider, circle_transform, position(2.5, 3.0)));
    assert!(!collider_contains(&circle_collider, circle_transform, position(3.1, 3.0)));

    let box_collider = rectangle(1.0, 0.5);
    let box_transform = Transform::new(position(-2.0, 1.0), Angle::quarter_turn());
    let box_collider: Collider = box_collider.into();
    assert!(collider_contains(&box_collider, box_transform, position(-2.4, 1.0)));
    assert!(!collider_contains(&box_collider, box_transform, position(-2.6, 1.0)));
}

#[test]
fn hit_test_includes_boundaries() {
    let circle = Circle::new(Length::from_raw(meters(1.0) as u32).unwrap()).unwrap();
    let transform = Transform::new(position(0.0, 0.0), Angle::zero());
    assert!(simple_collider_contains(SimpleCollider::Circle(circle), transform, position(1.0, 0.0)));
    assert!(!simple_collider_contains(SimpleCollider::Circle(circle), transform, position(1.0, 0.01)));

    let square = SimpleCollider::Convex(rectangle(1.0, 1.0));
    assert!(simple_collider_contains(square, transform, position(1.0, 1.0)));
    assert!(simple_collider_contains(square, transform, position(-1.0, 0.25)));
    assert!(!simple_collider_contains(square, transform, position(-1.0, 1.5)));
}

#[test]
fn composite_hit_test_accepts_any_part() {
    let near = Circle::with_center(position(-3.0, 0.0), Length::from_raw(meters(1.0) as u32).unwrap()).unwrap();
    let far = Circle::with_center(position(3.0, 0.0), Length::from_raw(meters(1.0) as u32).unwrap()).unwrap();
    let collider: Collider = CompositeCollider::new(vec![near.into(), far.into()]).into();
    let transform = Transform::identity();

    assert!(collider_contains(&collider, transform, position(-3.5, 0.0)));
    assert!(collider_contains(&collider, transform, position(3.5, 0.0)));
    assert!(!collider_contains(&collider, transform, position(0.0, 0.0)));
}

fn body_at(id: u64, x: f64) -> Body {
    Body::dynamic(
        BodyId::new(id),
        Circle::new(Length::from_raw(meters(1.0) as u32).unwrap()).unwrap().into(),
        Mass::one(),
        Material::inelastic(),
        BodyState::new(Transform::new(position(x, 0.0), Angle::zero()), LinearVelocity::zero(), AngularVelocity::zero()),
    )
}

#[test]
fn picking_prefers_the_last_body_in_storage_order() {
    let mut world = World::new(WorldSettings::new(LinearAcceleration::zero()));
    world.add_body(body_at(4, 0.0)).unwrap();
    world.add_body(body_at(9, 1.5)).unwrap();
    world.add_body(body_at(2, -5.0)).unwrap();

    assert_eq!(body_at_point(&world, position(0.75, 0.0)), Some(BodyId::new(9)));
    assert_eq!(body_at_point(&world, position(-0.5, 0.0)), Some(BodyId::new(4)));
    assert_eq!(body_at_point(&world, position(-5.0, 0.5)), Some(BodyId::new(2)));
    assert_eq!(body_at_point(&world, position(10.0, 0.0)), None);
}
