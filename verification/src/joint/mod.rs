//! Joints between bodies, and between a body and a world-space target.

use vstd::prelude::*;

use crate::body::BodyId;
use crate::ops::{RoundShift, isqrt_spec, isqrt_u64, round_shift_spec};
use crate::quantity::cordic::sin_cos_spec;
use crate::quantity::length::{Length, MAX_LENGTH};
use crate::quantity::position::{Position, clamp_position, position_in_range};
use crate::transform::{Transform, transform_point};

pub mod distance;
pub mod mouse;
pub mod rope;

pub use distance::DistanceJoint;
pub use mouse::MouseJoint;
pub use rope::RopeJoint;

verus! {

/// Default response: a quarter of the positional error per tick, Q16.
pub const DEFAULT_JOINT_RESPONSE_Q16: u32 = 0x4000;

/// Largest response: the whole error in one tick, Q16.
pub const MAX_JOINT_RESPONSE_Q16: u32 = 0x1_0000;

/// `response` clamped to at most one.
pub open spec fn bounded_response(response: u32) -> u32 {
    if response > MAX_JOINT_RESPONSE_Q16 { MAX_JOINT_RESPONSE_Q16 } else { response }
}

/// Endpoints of a two-body joint in ascending body-id order:
/// `(body A, body B, anchor A, anchor B)`.
pub open spec fn canonical_endpoints(a: BodyId, anchor_a: Position, b: BodyId, anchor_b: Position) -> (BodyId, BodyId, Position, Position) {
    if a@ <= b@ { (a, b, anchor_a, anchor_b) } else { (b, a, anchor_b, anchor_a) }
}

/// A two-body joint does not depend on which body is named first, and keeps
/// its endpoints in ascending body-id order.
pub proof fn lemma_endpoints_order_independent(a: BodyId, anchor_a: Position, b: BodyId, anchor_b: Position)
    requires
        a@ != b@,
    ensures
        canonical_endpoints(a, anchor_a, b, anchor_b) == canonical_endpoints(b, anchor_b, a, anchor_a),
        canonical_endpoints(a, anchor_a, b, anchor_b).0@ < canonical_endpoints(a, anchor_a, b, anchor_b).1@,
{
}

/// Floor distance between two positions in raw Q16.
pub open spec fn distance_between(a: (i32, i32), b: (i32, i32)) -> int {
    let dx = b.0 - a.0;
    let dy = b.1 - a.1;
    isqrt_spec(dx * dx + dy * dy)
}

/// The body-local point that `transform` maps onto `world`, rounded and
/// saturated to the world range.
pub open spec fn inverse_transform(transform: Transform, world: (i32, i32)) -> (int, int) {
    let dx = world.0 - transform.position@.0;
    let dy = world.1 - transform.position@.1;
    let sc = sin_cos_spec(transform.angle@);
    (
        clamp_position(round_shift_spec(dx * sc.1 + dy * sc.0, 30)),
        clamp_position(round_shift_spec(-dx * sc.0 + dy * sc.1, 30)),
    )
}

/// A whole number scaled to Q30 and rounded back is unchanged.
proof fn lemma_round_shift_of_unit(x: int)
    ensures
        round_shift_spec(x * 0x4000_0000, 30) == x,
{
    vstd::arithmetic::power2::lemma2_to64();
    if x >= 0 {
        vstd::arithmetic::div_mod::lemma_fundamental_div_mod_converse(x * 0x4000_0000 + 0x2000_0000, 0x4000_0000, x, 0x2000_0000);
    } else {
        vstd::arithmetic::div_mod::lemma_fundamental_div_mod_converse(-x * 0x4000_0000 + 0x2000_0000, 0x4000_0000, -x, 0x2000_0000);
    }
}

/// At the four cardinal orientations the body-local anchor of a world point
/// maps back onto that very point: placing `inverse_transform(t, w)` by `t`
/// gives `w`, whenever the offset of `w` from the body is itself a valid
/// local position (so nothing saturates).
pub proof fn lemma_anchor_round_trip_at_cardinal_angles(transform: Transform, world: (i32, i32))
    requires
        transform.angle@ == 0 || transform.angle@ == 0x4000_0000 || transform.angle@ == 0x8000_0000
            || transform.angle@ == 0xc000_0000,
        position_in_range(world.0 - transform.position@.0),
        position_in_range(world.1 - transform.position@.1),
    ensures
        transform_point(transform, inverse_transform(transform, world)) == (world.0 as int, world.1 as int),
{
    let dx = world.0 - transform.position@.0;
    let dy = world.1 - transform.position@.1;
    let local = inverse_transform(transform, world);
    let sc = sin_cos_spec(transform.angle@);
    if transform.angle@ == 0 {
        assert(sc == (0int, 0x4000_0000int));
        lemma_round_shift_of_unit(dx);
        lemma_round_shift_of_unit(dy);
        assert(dx * sc.1 + dy * sc.0 == dx * 0x4000_0000) by (nonlinear_arith)
            requires sc.0 == 0, sc.1 == 0x4000_0000;
        assert(-dx * sc.0 + dy * sc.1 == dy * 0x4000_0000) by (nonlinear_arith)
            requires sc.0 == 0, sc.1 == 0x4000_0000;
        assert(local == (dx, dy));
        lemma_round_shift_of_unit(local.0);
        lemma_round_shift_of_unit(local.1);
        assert(local.0 * sc.1 - local.1 * sc.0 == local.0 * 0x4000_0000) by (nonlinear_arith)
            requires sc.0 == 0, sc.1 == 0x4000_0000;
        assert(local.0 * sc.0 + local.1 * sc.1 == local.1 * 0x4000_0000) by (nonlinear_arith)
            requires sc.0 == 0, sc.1 == 0x4000_0000;
    } else if transform.angle@ == 0x4000_0000 {
        assert(sc == (0x4000_0000int, 0int));
        lemma_round_shift_of_unit(dy);
        lemma_round_shift_of_unit(-dx);
        assert(dx * sc.1 + dy * sc.0 == dy * 0x4000_0000) by (nonlinear_arith)
            requires sc.0 == 0x4000_0000, sc.1 == 0;
        assert(-dx * sc.0 + dy * sc.1 == (-dx) * 0x4000_0000) by (nonlinear_arith)
            requires sc.0 == 0x4000_0000, sc.1 == 0;
        assert(local == (dy, -dx));
        lemma_round_shift_of_unit(-local.1);
        lemma_round_shift_of_unit(local.0);
        assert(local.0 * sc.1 - local.1 * sc.0 == (-local.1) * 0x4000_0000) by (nonlinear_arith)
            requires sc.0 == 0x4000_0000, sc.1 == 0;
        assert(local.0 * sc.0 + local.1 * sc.1 == local.0 * 0x4000_0000) by (nonlinear_arith)
            requires sc.0 == 0x4000_0000, sc.1 == 0;
    } else if transform.angle@ == 0x8000_0000 {
        assert(sc == (0int, -0x4000_0000int));
        lemma_round_shift_of_unit(-dx);
        lemma_round_shift_of_unit(-dy);
        assert(dx * sc.1 + dy * sc.0 == (-dx) * 0x4000_0000) by (nonlinear_arith)
            requires sc.0 == 0, sc.1 == -0x4000_0000;
        assert(-dx * sc.0 + dy * sc.1 == (-dy) * 0x4000_0000) by (nonlinear_arith)
            requires sc.0 == 0, sc.1 == -0x4000_0000;
        assert(local == (-dx, -dy));
        lemma_round_shift_of_unit(-local.0);
        lemma_round_shift_of_unit(-local.1);
        assert(local.0 * sc.1 - local.1 * sc.0 == (-local.0) * 0x4000_0000) by (nonlinear_arith)
            requires sc.0 == 0, sc.1 == -0x4000_0000;
        assert(local.0 * sc.0 + local.1 * sc.1 == (-local.1) * 0x4000_0000) by (nonlinear_arith)
            requires sc.0 == 0, sc.1 == -0x4000_0000;
    } else {
        assert(sc == (-0x4000_0000int, 0int));
        lemma_round_shift_of_unit(-dy);
        lemma_round_shift_of_unit(dx);
        assert(dx * sc.1 + dy * sc.0 == (-dy) * 0x4000_0000) by (nonlinear_arith)
            requires sc.0 == -0x4000_0000, sc.1 == 0;
        assert(-dx * sc.0 + dy * sc.1 == dx * 0x4000_0000) by (nonlinear_arith)
            requires sc.0 == -0x4000_0000, sc.1 == 0;
        assert(local == (-dy, dx));
        lemma_round_shift_of_unit(local.1);
        lemma_round_shift_of_unit(-local.0);
        assert(local.0 * sc.1 - local.1 * sc.0 == local.1 * 0x4000_0000) by (nonlinear_arith)
            requires sc.0 == -0x4000_0000, sc.1 == 0;
        assert(local.0 * sc.0 + local.1 * sc.1 == (-local.0) * 0x4000_0000) by (nonlinear_arith)
            requires sc.0 == -0x4000_0000, sc.1 == 0;
    }
}

/// The identity transform leaves a world position's anchor where it is.
pub proof fn lemma_identity_anchor_is_the_point(transform: Transform, world: (i32, i32))
    requires
        transform.position@ == (0i32, 0i32),
        transform.angle@ == 0,
        position_in_range(world.0 as int),
        position_in_range(world.1 as int),
    ensures
        inverse_transform(transform, world) == (world.0 as int, world.1 as int),
{
    lemma_round_shift_of_unit(world.0 as int);
    lemma_round_shift_of_unit(world.1 as int);
    assert(world.0 * 0 == 0 && world.1 * 0 == 0);
}

/// Floor distance between two positions; `None` beyond the length range.
#[inline]
pub fn length_between(a: Position, b: Position) -> (l: Option<Length>)
    ensures
        l is Some <==> distance_between(a@, b@) <= MAX_LENGTH,
        l matches Some(l) ==> l@ == distance_between(a@, b@),
{
    let raw = isqrt_u64(b.diff(a).squared_magnitude());
    if raw > MAX_LENGTH as u64 {
        None
    } else {
        Length::from_raw(raw as u32)
    }
}

/// The body-local point that `transform` maps onto `world`.
pub fn inverse_transform_point(transform: Transform, world: Position) -> (p: Position)
    ensures
        (p@.0 as int, p@.1 as int) == inverse_transform(transform, world@),
{
    let w = world.raw();
    let c = transform.position.raw();
    let dx = w[0] as i64 - c[0] as i64;
    let dy = w[1] as i64 - c[1] as i64;
    let sc = transform.angle.sin_cos();
    let sin = sc.0 as i64;
    let cos = sc.1 as i64;
    proof {
        assert(-0x1000_0000_0000_0000 <= dx * cos <= 0x1000_0000_0000_0000) by (nonlinear_arith)
            requires -0x4000_0000 <= dx <= 0x4000_0000, -0x4000_0000 <= cos <= 0x4000_0000;
        assert(-0x1000_0000_0000_0000 <= dy * sin <= 0x1000_0000_0000_0000) by (nonlinear_arith)
            requires -0x4000_0000 <= dy <= 0x4000_0000, -0x4000_0000 <= sin <= 0x4000_0000;
        assert(-0x1000_0000_0000_0000 <= dx * sin <= 0x1000_0000_0000_0000) by (nonlinear_arith)
            requires -0x4000_0000 <= dx <= 0x4000_0000, -0x4000_0000 <= sin <= 0x4000_0000;
        assert(-0x1000_0000_0000_0000 <= dy * cos <= 0x1000_0000_0000_0000) by (nonlinear_arith)
            requires -0x4000_0000 <= dy <= 0x4000_0000, -0x4000_0000 <= cos <= 0x4000_0000;
        assert(-dx * sin == -(dx * sin)) by (nonlinear_arith);
    }
    let local_x = (dx * cos + dy * sin).round_shift(30);
    let local_y = (-dx * sin + dy * cos).round_shift(30);
    Position::from_i64(local_x, local_y)
}

} // verus!
