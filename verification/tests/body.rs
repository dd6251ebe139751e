use i_physics::body::material::COEFFICIENT_SCALE;
use i_physics::collider::Circle;
use i_physics::quantity::{
    Angle, AngularAcceleration, AngularVelocity, Length, LinearAcceleration, LinearVelocity, Mass, Position,
};
use i_physics::{Body, BodyId, BodyState, Material, SleepConfig, StaticBody, Transform};

#[test]
fn stable_id_is_eight_bytes_and_round_trips() {
    let id = BodyId::new(0x1234_5678_9abc);

    assert_eq!(core::mem::size_of::<BodyId>(), 8);
    assert_eq!(id.raw(), 0x1234_5678_9abc);
    assert_eq!(BodyId::from_raw(id.raw()), id);
}

#[test]
fn material_quantizes_both_coefficients() {
    // Restitution 0.25 and friction 1.5 in Q16.
    let material = Material::from_raw(1 << 14, 3 << 15).unwrap();

    assert_eq!(material.restitution_raw(), 1 << 14);
    assert_eq!(material.friction_raw(), 3 << 15);
}

#[test]
fn material_rejects_invalid_coefficients() {
    assert!(Material::from_raw(COEFFICIENT_SCALE + 1, 1 << 15).is_none());
    assert!(Material::from_raw(COEFFICIENT_SCALE, u32::MAX).is_some());
}

#[test]
fn combines_contact_coefficients() {
    let a = Material::from_raw(1 << 14, 1 << 15).unwrap();
    let b = Material::from_raw(3 << 14, 3 << 15).unwrap();

    assert_eq!(a.combined_restitution_raw(b), 3 << 14);
    assert_eq!(a.combined_friction_raw(b), 1 << 16);
    assert_eq!(b.combined_friction_raw(a), 1 << 16);
    assert_eq!(Material::from_raw(0, 1).unwrap().combined_friction_raw(Material::from_raw(0, 2).unwrap()), 2);
    assert_eq!(Material::default(), Material::inelastic());
    assert_eq!(Material::elastic().restitution_raw(), COEFFICIENT_SCALE);
}

#[test]
fn integrates_awake_body_transactionally() {
    let mut state = BodyState::new(Transform::new(Position::zero(), Angle::zero()), LinearVelocity::zero(), AngularVelocity::zero());
    // 64 m/s² in Q4.
    let acceleration = LinearAcceleration::from_raw(1 << 10, 0);

    assert!(state.checked_integrate(acceleration, AngularAcceleration::from_raw(0)));
    assert_eq!(state.linear_velocity().raw(), [1 << 10, 0]);
    assert_eq!(state.transform().position.raw(), [1_024, 0]);
}

#[test]
fn sleeps_after_configured_contact_ticks() {
    let config = SleepConfig::from_raw(u32::MAX, u32::MAX, 3);
    let mut state = BodyState::new(Transform::identity(), LinearVelocity::from_raw(10, -10), AngularVelocity::from_raw(10));

    assert!(!state.update_sleep(true, config));
    assert!(!state.update_sleep(true, config));
    assert!(state.update_sleep(true, config));
    assert!(state.is_sleeping());
    assert_eq!(state.linear_velocity(), LinearVelocity::zero());
    assert_eq!(state.angular_velocity(), AngularVelocity::zero());
}

#[test]
fn body_without_contact_does_not_sleep() {
    let config = SleepConfig::from_raw(u32::MAX, u32::MAX, 1);
    let mut state = BodyState::default();

    assert!(!state.update_sleep(false, config));
    assert!(!state.is_sleeping());
}

#[test]
fn wake_resets_explicit_sleep_state() {
    let config = SleepConfig::from_raw(u32::MAX, u32::MAX, 1);
    let mut state = BodyState::default();
    assert!(state.update_sleep(true, config));

    state.wake();

    assert!(!state.is_sleeping());
    assert_eq!(state.sleep_ticks(), 0);
}

#[test]
fn sleeping_body_ignores_gravity() {
    let config = SleepConfig::from_raw(u32::MAX, u32::MAX, 1);
    let mut state = BodyState::default();
    assert!(state.update_sleep(true, config));
    let before = state;

    // -10 m/s² in Q4.
    assert!(state.checked_integrate(LinearAcceleration::from_raw(0, -160), AngularAcceleration::from_raw(0)));
    assert_eq!(state, before);
}

#[test]
fn fast_moving_body_resets_sleep_progress() {
    let config = SleepConfig::from_raw(5, 5, 2);
    let mut state = BodyState::new(Transform::identity(), LinearVelocity::from_raw(3, 4), AngularVelocity::from_raw(0));
    assert!(!state.update_sleep(true, config));
    assert_eq!(state.sleep_ticks(), 1);
    state.set_linear_velocity(LinearVelocity::from_raw(6, 0));
    assert!(!state.update_sleep(true, config));
    assert_eq!(state.sleep_ticks(), 0);
    assert_eq!(SleepConfig::default().required_ticks(), 16);
    assert_eq!(SleepConfig::default().linear_speed_raw(), 838_861);
}

#[test]
fn dynamic_body_reports_zero_inverse_mass_while_sleeping() {
    let circle = Circle::new(Length::from_raw(1 << 15).unwrap()).unwrap();
    let mut body = Body::dynamic(BodyId::new(3), circle.into(), Mass::one(), Material::inelastic(), BodyState::default());

    assert_eq!(body.inverse_mass_q24(), 1 << 24);
    assert!(body.state_mut().update_sleep(true, SleepConfig::from_raw(u32::MAX, u32::MAX, 1)));
    assert_eq!(body.inverse_mass_q24(), 0);
    assert_eq!(body.id(), BodyId::new(3));
    assert_eq!(body.collider().as_circle(), Some(circle));

    let fixed = StaticBody::new(BodyId::new(4), Transform::identity(), circle.into(), Material::elastic());
    assert_eq!(fixed.aabb().max().raw(), [1 << 15, 1 << 15]);
}

#[test]
fn losing_contact_resets_the_sleep_counter() {
    let config = SleepConfig::from_raw(u32::MAX, u32::MAX, 4);
    let mut state = BodyState::new(Transform::identity(), LinearVelocity::from_raw(3, 0), AngularVelocity::zero());

    for expected in 1..4u8 {
        assert!(!state.update_sleep(true, config));
        assert_eq!(state.sleep_ticks(), expected);
        assert!(!state.is_sleeping());
    }
    assert!(!state.update_sleep(false, config));
    assert_eq!(state.sleep_ticks(), 0);
    assert_eq!(state.linear_velocity(), LinearVelocity::from_raw(3, 0));
}
