use i_physics::collider::{Circle, CompositeCollider};
use i_physics::quantity::{Angle, AngularVelocity, Length, LinearAcceleration, LinearVelocity, Mass, Position};
use i_physics::{AddBodyError, Body, BodyId, BodyState, Material, StaticBody, Transform, World, WorldSettings};

fn circle_body(id: u64) -> Body {
    Body::dynamic(
        BodyId::new(id),
        Circle::new(Length::from_raw(1 << 15).unwrap()).unwrap().into(),
        Mass::one(),
        Material::inelastic(),
        BodyState::new(Transform::new(Position::zero(), Angle::zero()), LinearVelocity::zero(), AngularVelocity::zero()),
    )
}

fn world() -> World {
    World::new(WorldSettings::new(LinearAcceleration::from_raw(0, 0)))
}

#[test]
fn bodies_are_sorted_and_found_by_stable_id() {
    let mut world = world();
    world.add_body(circle_body(9)).unwrap();
    world.add_body(circle_body(2)).unwrap();

    assert_eq!(world.bodies()[0].id(), BodyId::new(2));
    assert_eq!(world.bodies()[1].id(), BodyId::new(9));
    assert_eq!(world.body(BodyId::new(9)).unwrap().id(), BodyId::new(9));

    assert_eq!(world.remove_body(BodyId::new(2)).unwrap().id(), BodyId::new(2));
    assert!(world.body(BodyId::new(2)).is_none());
}

#[test]
fn duplicate_body_id_is_rejected() {
    let mut world = world();
    world.add_body(circle_body(7)).unwrap();

    assert_eq!(world.add_body(circle_body(7)), Err(AddBodyError::DuplicateId(BodyId::new(7))));
}

#[test]
fn dynamic_and_static_bodies_share_id_namespace() {
    let mut world = world();
    world.add_body(circle_body(7)).unwrap();
    let static_body = StaticBody::new(
        BodyId::new(7),
        Transform::identity(),
        CompositeCollider::new(vec![Circle::new(Length::from_raw(1 << 16).unwrap()).unwrap().into()]).into(),
        Material::inelastic(),
    );

    assert_eq!(world.add_static_body(static_body), Err(AddBodyError::DuplicateId(BodyId::new(7))));
}

#[test]
fn removal_and_mutation_keep_ids_addressable() {
    let mut world = world();
    for id in [5, 1, 3] {
        world.add_body(circle_body(id)).unwrap();
    }
    let ids: Vec<u64> = world.bodies().iter().map(|b| b.id().raw()).collect();
    assert_eq!(ids, vec![1, 3, 5]);
    world.body_mut(BodyId::new(3)).unwrap().state_mut().wake();
    assert!(world.remove_body(BodyId::new(4)).is_none());
    assert_eq!(world.body_count(), 3);
    let fixed = StaticBody::new(BodyId::new(4), Transform::identity(), Circle::new(Length::from_raw(1).unwrap()).unwrap().into(), Material::inelastic());
    world.add_static_body(fixed).unwrap();
    assert!(world.static_body(BodyId::new(4)).is_some());
    assert_eq!(world.add_body(circle_body(4)), Err(AddBodyError::DuplicateId(BodyId::new(4))));
    assert_eq!(world.remove_static_body(BodyId::new(4)).unwrap().id(), BodyId::new(4));
    assert_eq!(world.static_body_count(), 0);
    assert!(world.contacts().is_empty());
}

#[test]
fn removing_an_added_body_restores_the_world() {
    let mut world = world();
    world.add_body(circle_body(3)).unwrap();
    let before: Vec<BodyId> = world.bodies().iter().map(|body| body.id()).collect();

    world.add_body(circle_body(8)).unwrap();
    assert_eq!(world.body(BodyId::new(8)), Some(&circle_body(8)));
    assert_eq!(world.remove_body(BodyId::new(8)), Some(circle_body(8)));

    let after: Vec<BodyId> = world.bodies().iter().map(|body| body.id()).collect();
    assert_eq!(after, before);
    assert!(world.body(BodyId::new(8)).is_none());
}
