use i_physics::geometry::{GeometryPoint, RawVec2, UnitVector};
use i_physics::ops::{ClampToI32, DivRoundShift, RoundShift};
use i_physics::quantity::{
    integrate, integrate_angular, Angle, AngleDelta, AngularAcceleration, AngularVelocity,
    Damping, DiffVec2, Force, Length, LinearAcceleration, LinearVelocity, Mass, Position,
};
use i_physics::Transform;

#[test]
fn clamps_wide_integers_to_inclusive_i32_range() {
    assert_eq!((i32::MIN as i64 - 1).clamp_to_i32(i32::MIN, i32::MAX), i32::MIN);
    assert_eq!((i32::MAX as i64 + 1).clamp_to_i32(i32::MIN, i32::MAX), i32::MAX);
    assert_eq!(7_i64.clamp_to_i32(-5, 5), 5);
    assert_eq!((-7_i64).clamp_to_i32(-5, 5), -5);
    assert_eq!(3_i64.clamp_to_i32(-5, 5), 3);
}

#[test]
fn shifted_division_rounds_and_saturates() {
    assert_eq!(1_u128.div_round_shift_saturating(3, 4), 5);
    assert_eq!(u128::MAX.div_round_shift_saturating(1, 40), u64::MAX);
}

#[test]
fn signed_shift_rounds_away_from_zero() {
    assert_eq!(5_i64.round_shift(1), 3);
    assert_eq!((-5_i64).round_shift(1), -3);
    assert_eq!(i64::MIN.round_shift(1), i64::MIN / 2);
}

#[test]
fn q30_sin_cos_uses_conventional_order() {
    assert_eq!(Angle::zero().sin_cos_q30(), [0, 1 << 30]);
    assert_eq!(Angle::quarter_turn().sin_cos_q30(), [1 << 30, 0]);
    assert_eq!(Angle::half_turn().sin_cos_q30(), [0, -(1 << 30)]);
}

#[test]
fn cordic_rotation_is_non_expanding() {
    let scale_squared = 1_i64 << 60;
    for raw in (0..=u32::MAX).step_by(65_537) {
        let [sin, cos] = Angle::from_raw(raw).sin_cos_q30();
        assert!(sin as i64 * sin as i64 + cos as i64 * cos as i64 <= scale_squared);
    }
}

#[test]
fn quantizes_public_loss_but_stores_retention() {
    // A loss coefficient of 0.001 quantizes to 66 in Q16.
    let damping = Damping::from_raw(66).unwrap();

    assert_eq!(damping.raw(), 66);
    assert_eq!(damping.retention_raw(), (1 << 16) - 66);
    assert_eq!(Damping::none().raw(), 0);
    assert_eq!(Damping::full().raw(), 1 << 16);
}

#[test]
fn rejects_coefficients_outside_unit_interval() {
    assert!(Damping::from_raw((1 << 16) + 1).is_none());
    assert!(Damping::from_raw(1 << 16).is_some());
}

#[test]
fn damping_is_symmetric_and_truncates_toward_zero() {
    let damping = Damping::from_raw(1 << 14).unwrap();

    assert_eq!(damping.apply_raw(5), 3);
    assert_eq!(damping.apply_raw(-5), -3);
    assert_eq!(damping.apply_raw(1), 0);
    assert_eq!(damping.apply_raw(-1), 0);
}

#[test]
fn handles_full_i32_range() {
    assert_eq!(Damping::none().apply_raw(i32::MIN), i32::MIN);
    assert_eq!(Damping::none().apply_raw(i32::MAX), i32::MAX);
    assert_eq!(Damping::full().apply_raw(i32::MIN), 0);
}

#[test]
fn one_newton_maps_to_one_tick_impulse() {
    let force = Force::from_raw(1 << 16);

    assert_eq!(force.raw(), 1 << 16);
    assert_eq!(force.impulse_per_tick_q10(), 16);
}

#[test]
fn raw_constructor_enforces_the_length_range() {
    let max = Length::from_raw(Length::MAX_LENGTH).unwrap();

    assert_eq!(max.raw(), Length::MAX_LENGTH);
    assert!(Length::from_raw(Length::MAX_LENGTH + 1).is_none());
}

#[test]
fn subtraction_stays_inside_raw_vector_range() {
    let max = Position::from_i32(i32::MAX, i32::MIN);
    let min = Position::from_i32(i32::MIN, i32::MAX);

    assert_eq!(
        (max - min).raw(),
        [2 * Position::MAX_POSITION, -2 * Position::MAX_POSITION]
    );
}

#[test]
fn raw_constructor_clamps_to_world_boundary() {
    assert_eq!(
        Position::from_i32(i32::MIN, i32::MAX).raw(),
        [Position::MIN_POSITION, Position::MAX_POSITION]
    );
    assert!(Position::checked_from_raw(Position::MIN_POSITION, Position::MAX_POSITION).is_some());
    assert!(Position::checked_from_raw(Position::MIN_POSITION - 1, 0).is_none());
}

#[test]
fn midpoint_stays_in_world() {
    let min = Position::from_i32(Position::MIN_POSITION, Position::MIN_POSITION);
    let max = Position::from_i32(Position::MAX_POSITION, Position::MAX_POSITION);

    assert_eq!(min.midpoint(max), Position::zero());
}

#[test]
fn squared_distance_uses_bounded_difference() {
    let a = Position::from_i32(3, 4);

    assert_eq!(a.squared_distance(Position::zero()), 25);
}

#[test]
fn raw_dot_and_cross_are_exact() {
    let a = DiffVec2::from_raw(3, 4);
    let b = DiffVec2::from_raw(-2, 5);

    assert_eq!(a.dot(b), 14);
    assert_eq!(a.cross(b), 23);
    assert_eq!(a.squared_magnitude(), 25);
}

#[test]
fn raw_extreme_products_fit_i64() {
    let max = DiffVec2::from_raw(i32::MAX, i32::MAX);
    let mixed = DiffVec2::from_raw(-i32::MAX, i32::MAX);

    assert_eq!(max.dot(max), 2 * i32::MAX as i64 * i32::MAX as i64);
    assert_eq!(max.cross(mixed), 2 * i32::MAX as i64 * i32::MAX as i64);
    assert_eq!(
        DiffVec2::from_wide_clamped(i64::MIN, i64::MAX).raw(),
        [-i32::MAX, i32::MAX]
    );
}

#[test]
fn preserves_bounded_geometry_range() {
    let point =
        GeometryPoint::from_i64_unchecked(Position::MIN_POINT as i64, Position::MAX_POINT as i64);

    assert_eq!(point.raw(), [Position::MIN_POINT, Position::MAX_POINT]);
    assert_eq!(Position::MIN_POINT.checked_add(Position::MIN_POINT), Some(i32::MIN + 2));
    assert_eq!(Position::MAX_POINT.checked_add(Position::MAX_POINT), Some(i32::MAX - 1));
}

#[test]
fn midpoint_stays_inside_geometry_range() {
    let a = GeometryPoint::from_i32_unchecked(Position::MAX_POINT, Position::MAX_POINT);
    let b = GeometryPoint::from_i32_unchecked(Position::MAX_POINT - 2, Position::MIN_POINT);

    assert_eq!(a.midpoint(b).raw(), [Position::MAX_POINT - 1, 0]);
}

#[test]
fn extreme_difference_fits_raw_vector() {
    let min = GeometryPoint::from_i32_unchecked(Position::MIN_POINT, Position::MIN_POINT);
    let max = GeometryPoint::from_i32_unchecked(Position::MAX_POINT, Position::MAX_POINT);
    let expected = 2 * Position::MAX_POINT;

    assert_eq!((max - min).raw(), [expected, expected]);
    assert_eq!(max.squared_distance(min), 2 * expected as u64 * expected as u64);
}

#[test]
fn normalizes_raw_vector_to_q30() {
    let direction = UnitVector::normalized(DiffVec2::from_raw(3, 4)).unwrap();

    assert_eq!(direction.raw(), [644_245_094, 858_993_459]);
    assert_eq!(direction.scaled_raw(10).raw(), [6, 8]);
    assert_eq!(direction.dot_raw(DiffVec2::from_raw(3, 4)), 5);
    assert!(UnitVector::normalized(DiffVec2::zero()).is_none());
}

#[test]
fn vec_dot_and_cross_are_exact() {
    let a = RawVec2::from_i32(3, 4);
    let b = RawVec2::from_i32(-2, 5);

    assert_eq!(a.dot(b), 14);
    assert_eq!(a.cross(b), 23);
    assert_eq!(a.squared_magnitude(), 25);
}

#[test]
fn vec_extreme_products_fit_i64() {
    let component = RawVec2::MAX_COMPONENT;
    let max = RawVec2::from_i32(component, component);
    let mixed = RawVec2::from_i32(-component, component);

    assert_eq!(max.dot(max), 2 * component as i64 * component as i64);
    assert_eq!(max.cross(mixed), 2 * component as i64 * component as i64);
}

#[test]
fn binary_angle_wraps_at_exactly_one_turn() {
    let angle = Angle::from_raw(u32::MAX).wrapping_add(AngleDelta::from_raw(1));

    assert_eq!(angle, Angle::zero());
    assert_eq!(Angle::zero().delta_to(Angle::quarter_turn()).raw(), 1 << 30);
    assert_eq!(Angle::quarter_turn().delta_to(Angle::zero()).raw(), -(1 << 30));
}

#[test]
fn integrates_constant_velocity_at_64_hz() {
    // One metre per second in Q10 advances a Q16 position by 1/64 m per tick.
    let velocity = LinearVelocity::from_raw(1 << 10, -(1 << 10));

    let position = Position::zero().advance(velocity);

    assert_eq!(position.raw(), [1_024, -1_024]);
}

#[test]
fn integrates_acceleration_before_position() {
    // 100 m/s² in Q4 changes velocity by 1.5625 m/s (1600 raw Q10) in one tick.
    let acceleration = LinearAcceleration::from_raw(1_600, -1_600);

    let (position, velocity) = integrate(Position::zero(), LinearVelocity::zero(), acceleration);

    assert_eq!(velocity.raw(), [1_600, -1_600]);
    assert_eq!(position.raw(), [1_600, -1_600]);
}

#[test]
fn integration_saturates_at_world_boundary() {
    let position = Position::from_raw(i32::MAX, 0);
    let velocity = LinearVelocity::from_raw(1 << 10, 0);

    assert_eq!(position.advance(velocity).raw()[0], Position::MAX_RAW);
}

#[test]
fn velocity_integration_saturates_at_gameplay_limit() {
    let velocity = LinearVelocity::from_raw(LinearVelocity::MAX_RAW, LinearVelocity::MIN_RAW);
    let acceleration = LinearAcceleration::from_raw(1_600, -1_600);

    assert_eq!(
        velocity.advance(acceleration).raw(),
        [LinearVelocity::MAX_RAW, LinearVelocity::MIN_RAW]
    );
}

#[test]
fn angular_acceleration_uses_full_q24_range() {
    assert_eq!(AngularAcceleration::from_raw(i32::MIN).raw(), i32::MIN);
    assert_eq!(AngularAcceleration::from_raw(i32::MAX).raw(), i32::MAX);
}

#[test]
fn integrates_angular_acceleration_before_angle() {
    // 100 rad/s² in Q24 changes angular velocity by 1.5625 rad/s in one tick.
    let acceleration = AngularAcceleration::from_raw(100 << 24);
    let (angle, velocity) =
        integrate_angular(Angle::zero(), AngularVelocity::zero(), acceleration);

    assert_eq!(velocity.raw(), 102_400);
    let expected_turns = 1.5625 / 64.0 / (2.0 * core::f64::consts::PI);
    let actual_turns = angle.raw() as f64 / 4_294_967_296.0;
    assert!((actual_turns - expected_turns).abs() < 1.0e-9);
}

#[test]
fn angular_velocity_conversion_is_symmetric() {
    let positive = AngularVelocity::from_raw(100 << 16);
    let negative = AngularVelocity::from_raw(-(100 << 16));

    assert_eq!(
        positive.angle_delta_per_tick().raw(),
        -negative.angle_delta_per_tick().raw()
    );
}

#[test]
fn applies_cardinal_rotation_exactly() {
    let transform = Transform::new(Position::from_raw(100, 200), Angle::quarter_turn());

    assert_eq!(transform.apply(Position::from_raw(30, 10)), Position::from_raw(90, 230));
}

#[test]
fn arbitrary_point_transformation_saturates_at_world_boundary() {
    let transform = Transform::new(
        Position::from_raw(Position::MAX_RAW, Position::MAX_RAW),
        Angle::zero(),
    );

    assert_eq!(
        transform.apply(Position::from_raw(1, 1)),
        Position::from_raw(Position::MAX_RAW, Position::MAX_RAW)
    );
}

#[test]
fn advances_both_position_and_angle() {
    let transform = Transform::identity();
    let linear = LinearVelocity::from_raw(64 << 10, -(32 << 10));
    let angular = AngularVelocity::from_raw(205_887);
    let next = transform.advance(linear, angular);

    assert_eq!(next.position.raw(), [1 << 16, -(1 << 15)]);
    assert_ne!(next.angle, Angle::zero());
}

#[test]
fn mass_inverse_is_q24_reciprocal() {
    assert_eq!(Mass::one().inverse_q24(), 1 << 24);
    assert!(Mass::from_raw(0).is_none());
}

#[test]
fn wide_direction_products_round_half_away_from_zero() {
    let direction = UnitVector::from_raw(1 << 29, -(1 << 30));
    assert_eq!(direction.scaled_wide_raw(3), [2, -3]);
    assert_eq!(direction.scaled_wide_raw(-3), [-2, 3]);
    assert_eq!(direction.scaled_wide_raw(1 << 80), [1 << 79, -(1 << 80)]);
    assert_eq!(direction.dot_wide_raw([i64::MAX / 4, 0]), (i64::MAX / 4 + 1) / 2);
    assert_eq!(direction.dot_wide_raw([0, 5]), -5);
    assert_eq!(direction.dot_wide_raw([1, 1]), -1);
}

#[test]
fn lever_projection_becomes_q10_point_speed() {
    let omega = AngularVelocity::from_raw(1 << 16);
    assert_eq!(omega.projected_point_speed_raw(1 << 16), 1 << 10);
    assert_eq!(omega.projected_point_speed_raw(-(3 << 5)), -2);
    assert_eq!(AngularVelocity::from_raw(-(1 << 16)).projected_point_speed_raw(1 << 16), -(1 << 10));
}

#[test]
fn very_wide_coordinates_saturate_at_the_world_boundary() {
    let p = Position::from_i128(i128::MAX, i128::MIN);
    assert_eq!(p.raw(), [Position::MAX_POSITION, Position::MIN_POSITION]);
    assert_eq!(Position::from_i128(-12, 34).raw(), [-12, 34]);
}

#[test]
fn shifted_division_handles_denominators_above_half_of_u128() {
    let denominator = (1_u128 << 127) + 10;
    assert_eq!(((1_u128 << 127) + 5).div_round_shift_saturating(denominator, 1), 2);
    assert_eq!(u128::MAX.div_round_shift_saturating(u128::MAX, 4), 16);
    assert_eq!((u128::MAX / 2 + 1).div_round_shift_saturating(u128::MAX, 0), 1);
    assert_eq!((u128::MAX / 2).div_round_shift_saturating(u128::MAX, 0), 0);
}
