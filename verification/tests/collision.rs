use i_physics::collider::{Circle, Collider, CompositeCollider, Convex};
use i_physics::collision::circle_circle::{collide, collide_transformed};
use i_physics::collision::dispatch::CollisionSolver;
use i_physics::collision::{circle_convex, collide_circles, convex_convex, ColliderFeature, Contact, ContactManifold};
use i_physics::geometry::{GeometryPoint, UnitVector};
use i_physics::quantity::{Angle, Length, Position};
use i_physics::{BodyId, Transform};

fn meters(value: f64) -> i32 {
    (value * 65_536.0).round() as i32
}

fn metres_position(x: f64, y: f64) -> Position {
    Position::from_i32(meters(x), meters(y))
}

fn radius(value: f64) -> Length {
    Length::from_raw(meters(value) as u32).unwrap()
}

fn square_of(half_extent: f64) -> Convex {
    Convex::new(&[
        metres_position(-half_extent, -half_extent),
        metres_position(half_extent, -half_extent),
        metres_position(half_extent, half_extent),
        metres_position(-half_extent, half_extent),
    ])
    .unwrap()
}

fn point_meters(point: GeometryPoint) -> [f64; 2] {
    let [x, y] = point.raw();
    [x as f64 / 65_536.0, y as f64 / 65_536.0]
}

#[test]
fn circle_circle_tangent_circles_create_zero_penetration_contact() {
    let circle = Circle::new(radius(1.0)).unwrap();
    let contact = collide(BodyId::new(1), circle, Position::zero(), BodyId::new(2), circle, metres_position(2.0, 0.0)).unwrap();

    assert_eq!(contact.normal, UnitVector::x());
    assert_eq!(contact.penetration, Length::zero());
    assert_eq!(point_meters(contact.point), [1.0, 0.0]);
}

#[test]
fn circle_circle_separated_circles_do_not_collide() {
    let circle = Circle::new(radius(1.0)).unwrap();
    assert!(collide(BodyId::new(1), circle, Position::zero(), BodyId::new(2), circle, metres_position(2.01, 0.0)).is_none());
}

#[test]
fn circle_tangent_circles_create_zero_penetration_contact() {
    let circle = Circle::new(radius(1.0)).unwrap();
    let contact =
        collide_circles(BodyId::new(1), circle, Position::zero(), BodyId::new(2), circle, metres_position(2.0, 0.0)).unwrap();

    assert_eq!(contact.normal, UnitVector::x());
    assert_eq!(contact.penetration, Length::zero());
    assert_eq!(point_meters(contact.point), [1.0, 0.0]);
}

#[test]
fn circle_separated_circles_do_not_collide() {
    let circle = Circle::new(radius(1.0)).unwrap();
    assert!(collide_circles(BodyId::new(1), circle, Position::zero(), BodyId::new(2), circle, metres_position(2.01, 0.0)).is_none());
}

#[test]
fn contained_circle_uses_signed_contact_offset() {
    let small = Circle::new(radius(1.0)).unwrap();
    let large = Circle::new(radius(3.0)).unwrap();
    let contact = collide(BodyId::new(1), small, Position::zero(), BodyId::new(2), large, Position::zero()).unwrap();

    assert_eq!(point_meters(contact.point), [-1.0, 0.0]);
}

#[test]
fn contact_point_can_extend_beyond_position_range() {
    let large = Circle::new(Length::from_raw(Position::MAX_POSITION as u32).unwrap()).unwrap();
    let small = Circle::new(Length::from_raw(1).unwrap()).unwrap();
    let center = Position::from_i32(Position::MAX_POSITION, Position::MAX_POSITION);
    let contact = collide(BodyId::new(1), large, center, BodyId::new(2), small, center).unwrap();

    assert!(contact.point.raw()[0] > Position::MAX_POSITION);
    assert_eq!(contact.point.raw()[1], Position::MAX_POSITION);
}

#[test]
fn maximum_penetration_fits_length() {
    let circle = Circle::new(Length::from_raw(Position::MAX_POSITION as u32).unwrap()).unwrap();
    let contact = collide(BodyId::new(1), circle, Position::zero(), BodyId::new(2), circle, Position::zero()).unwrap();

    assert_eq!(contact.penetration.raw(), 2 * Position::MAX_POSITION as u32);
}

#[test]
fn transformed_collision_rotates_local_circle_center() {
    let offset = Circle::with_center(metres_position(1.0, 0.0), radius(0.5)).unwrap();
    let centered = Circle::new(radius(0.5)).unwrap();

    let contact = collide_transformed(
        BodyId::new(1),
        offset,
        Transform::new(Position::zero(), Angle::quarter_turn()),
        BodyId::new(2),
        centered,
        Transform::new(metres_position(0.0, 2.0), Angle::zero()),
    )
    .unwrap();

    assert_eq!(contact.penetration, Length::zero());
    assert_eq!(point_meters(contact.point), [0.0, 1.5]);
}

fn collide_with_square(center: Position, r: f64) -> Option<Contact> {
    circle_convex::collide(
        BodyId::new(1),
        Circle::new(radius(r)).unwrap(),
        Transform::new(center, Angle::zero()),
        BodyId::new(2),
        square_of(1.0),
        Transform::identity(),
    )
}

#[test]
fn face_contact_points_from_circle_to_convex() {
    let contact = collide_with_square(metres_position(1.25, 0.0), 0.5).unwrap();

    assert_eq!(contact.normal, UnitVector::x().neg());
    assert_eq!(contact.penetration.raw() as f64 / 65_536.0, 0.25);
    assert_eq!(point_meters(contact.point), [0.875, 0.0]);
}

#[test]
fn face_distances_reject_a_circle_past_a_corner() {
    assert!(collide_with_square(metres_position(1.2, 1.2), 0.25).is_none());
}

#[test]
fn corner_contact_uses_the_vertex_direction() {
    let contact = collide_with_square(metres_position(1.2, 1.2), 0.3).unwrap();
    let [normal_x, normal_y] = contact.normal.raw();

    assert!(normal_x < 0);
    assert!(normal_y < 0);
    assert!(contact.penetration.raw() > 0);
    assert!(matches!(contact.feature_b, ColliderFeature::ConvexVertex(_)));
}

#[test]
fn contained_circle_uses_distance_to_the_nearest_face() {
    let contact = collide_with_square(Position::zero(), 0.5).unwrap();

    assert_eq!(contact.normal.raw(), [0, 1 << 30]);
    assert_eq!(contact.penetration.raw() as f64 / 65_536.0, 1.5);
}

fn first_contact(manifold: Option<ContactManifold>) -> Contact {
    manifold.unwrap().first()
}

#[test]
fn projection_distances_orient_the_normal_from_a_to_b() {
    let contact = first_contact(convex_convex::collide(
        BodyId::new(1),
        square_of(1.0),
        Transform::identity(),
        BodyId::new(2),
        square_of(1.0),
        Transform::new(metres_position(1.5, 0.0), Angle::zero()),
    ));

    assert_eq!(contact.normal, UnitVector::x());
    assert_eq!(contact.penetration.raw() as f64 / 65_536.0, 0.5);
}

#[test]
fn containment_uses_the_full_separation_distance() {
    let contact = first_contact(convex_convex::collide(
        BodyId::new(1),
        square_of(0.5),
        Transform::identity(),
        BodyId::new(2),
        square_of(2.0),
        Transform::identity(),
    ));

    assert_eq!(contact.penetration.raw() as f64 / 65_536.0, 2.5);
}

fn box_of(half_width: f64, half_height: f64) -> Convex {
    Convex::new(&[
        metres_position(-half_width, -half_height),
        metres_position(half_width, -half_height),
        metres_position(half_width, half_height),
        metres_position(-half_width, half_height),
    ])
    .unwrap()
}

fn angle_from_degrees(degrees: f64) -> Angle {
    Angle::from_raw((degrees / 360.0 * 4_294_967_296.0).round() as u32)
}

#[test]
fn overlapping_faces_keep_both_ends_of_the_clipped_interval() {
    let floor = box_of(5.0, 0.2);
    let rectangle = box_of(0.65, 0.4);
    let angle = angle_from_degrees(20.0);
    let transform_a = Transform::new(metres_position(0.8, 0.88), angle);
    let manifold = convex_convex::collide(
        BodyId::new(1),
        rectangle,
        transform_a,
        BodyId::new(2),
        floor,
        Transform::new(Position::zero(), angle),
    )
    .unwrap();
    let contacts = manifold.contacts();

    assert_eq!(contacts.len(), 2);
    let [cx, cy] = transform_a.position.raw();
    let center = GeometryPoint::from_i32_unchecked(cx, cy);
    let tangent = contacts[0].normal.perpendicular();
    let first_lever = tangent.dot(contacts[0].point - center);
    let second_lever = tangent.dot(contacts[1].point - center);
    assert!(first_lever < 0);
    assert!(second_lever > 0);
    assert!((first_lever + second_lever).abs() <= 4);
}

fn dispatch(
    a: &Collider,
    transform_a: Transform,
    b: &Collider,
    transform_b: Transform,
) -> Vec<ContactManifold> {
    let mut out = Vec::new();
    CollisionSolver::new().collide(BodyId::new(1), a, transform_a, BodyId::new(2), b, transform_b, &mut out);
    out
}

fn unit_square() -> Convex {
    Convex::new(&[
        Position::from_i32(-65_536, -65_536),
        Position::from_i32(65_536, -65_536),
        Position::from_i32(65_536, 65_536),
        Position::from_i32(-65_536, 65_536),
    ])
    .unwrap()
}

#[test]
fn circle_and_convex_generate_topological_features() {
    let manifolds = dispatch(
        &Circle::new(radius(0.5)).unwrap().into(),
        Transform::new(metres_position(1.25, 0.0), Angle::zero()),
        &unit_square().into(),
        Transform::identity(),
    );
    let contact = manifolds[0].first();

    assert_eq!(contact.body_a, BodyId::new(1));
    assert_eq!(contact.body_b, BodyId::new(2));
    assert!(contact.penetration.raw() > 0);
    assert_eq!(contact.feature_a, ColliderFeature::Circle);
    assert!(matches!(contact.feature_b, ColliderFeature::ConvexVertex(_) | ColliderFeature::ConvexEdge(_)));
}

#[test]
fn circle_and_convex_generate_contact_without_shape_identity() {
    let manifolds = dispatch(
        &Circle::new(radius(0.5)).unwrap().into(),
        Transform::new(metres_position(1.25, 0.0), Angle::zero()),
        &unit_square().into(),
        Transform::identity(),
    );
    let contact = manifolds[0].first();

    assert_eq!(contact.body_a, BodyId::new(1));
    assert_eq!(contact.body_b, BodyId::new(2));
    assert!(contact.penetration.raw() > 0);
}

#[test]
fn convex_and_circle_flip_the_circle_contact() {
    let manifolds = dispatch(
        &unit_square().into(),
        Transform::identity(),
        &Circle::new(radius(0.5)).unwrap().into(),
        Transform::new(metres_position(1.25, 0.0), Angle::zero()),
    );
    let contact = manifolds[0].first();

    assert_eq!(contact.normal, UnitVector::x());
    assert_eq!(contact.feature_b, ColliderFeature::Circle);
    assert_eq!(contact.penetration.raw(), 1 << 14);
}

#[test]
fn convex_manifold_features_are_stable_under_translation() {
    let contacts = |offset: f64| {
        let manifolds = dispatch(
            &unit_square().into(),
            Transform::new(metres_position(offset, -3.0), Angle::zero()),
            &unit_square().into(),
            Transform::new(metres_position(offset + 2.0, -3.0), Angle::zero()),
        );
        manifolds
            .iter()
            .flat_map(|manifold| manifold.contacts())
            .map(|contact| (contact.feature_a, contact.feature_b))
            .collect::<Vec<_>>()
    };

    let first = contacts(0.0);
    let shifted = contacts(7.0);
    assert_eq!(first, shifted);
    assert_eq!(first.len(), 2);
    assert_ne!(first[0], first[1]);
}

#[test]
fn dispatch_separated_convexes_do_not_collide() {
    let manifolds = dispatch(
        &unit_square().into(),
        Transform::identity(),
        &unit_square().into(),
        Transform::new(metres_position(3.0, 0.0), Angle::zero()),
    );
    assert!(manifolds.is_empty());
}

#[test]
fn collider_separated_convexes_do_not_collide() {
    assert!(convex_convex::collide(
        BodyId::new(1),
        unit_square(),
        Transform::identity(),
        BodyId::new(2),
        unit_square(),
        Transform::new(metres_position(3.0, 0.0), Angle::zero()),
    )
    .is_none());
}

#[test]
fn composite_pair_emits_every_primitive_manifold() {
    let r = radius(0.5);
    let composite = |y: f64| {
        CompositeCollider::new(vec![
            Circle::with_center(metres_position(-1.0, y), r).unwrap().into(),
            Circle::with_center(metres_position(1.0, y), r).unwrap().into(),
        ])
    };
    let a: Collider = composite(0.0).into();
    let b: Collider = composite(0.75).into();

    let parts: Vec<_> = dispatch(&a, Transform::identity(), &b, Transform::identity())
        .iter()
        .map(|manifold| (manifold.first().part_a, manifold.first().part_b))
        .collect();

    assert_eq!(parts, [(Some(0), Some(0)), (Some(1), Some(1))]);
}

#[test]
fn flipped_contact_swaps_endpoints() {
    let circle = Circle::new(radius(1.0)).unwrap();
    let contact = collide(BodyId::new(1), circle, Position::zero(), BodyId::new(2), circle, metres_position(1.5, 0.0)).unwrap();
    let flipped = contact.flipped();

    assert_eq!(flipped.body_a, BodyId::new(2));
    assert_eq!(flipped.body_b, BodyId::new(1));
    assert_eq!(flipped.normal, UnitVector::x().neg());
    assert_eq!(flipped.flipped(), contact);
    let parted = contact.with_parts(Some(3), None);
    assert_eq!(parted.part_a, Some(3));
    assert_eq!(ContactManifold::two(contact, parted).contacts().len(), 2);
}

#[test]
fn offset_circle_part_meets_a_convex_at_its_placed_center() {
    let offset = Circle::with_center(metres_position(1.25, 0.0), radius(0.5)).unwrap();
    let contact = circle_convex::collide(
        BodyId::new(1),
        offset,
        Transform::identity(),
        BodyId::new(2),
        square_of(1.0),
        Transform::identity(),
    )
    .unwrap();
    let centered = collide_with_square(metres_position(1.25, 0.0), 0.5).unwrap();

    assert_eq!(contact, centered);
    assert!(circle_convex::collide(
        BodyId::new(1),
        offset,
        Transform::new(metres_position(3.0, 0.0), Angle::zero()),
        BodyId::new(2),
        square_of(1.0),
        Transform::identity(),
    )
    .is_none());
}
