use vstd::prelude::*;

use crate::quantity::{
    AngularAcceleration, AngularVelocity, LinearAcceleration, LinearVelocity, integrate,
    integrate_angular,
};
use crate::ops::clamp_spec;
use crate::quantity::angle::wrap_u32;
use crate::quantity::angular_velocity::{MAX_ANGULAR_VELOCITY, MIN_ANGULAR_VELOCITY};
use crate::quantity::linear_velocity::clamp_velocity;
use crate::quantity::position::clamp_position;
use crate::transform::Transform;

verus! {

/// Sleeping thresholds: squared linear speed, angular speed, and the number of
/// slow ticks in contact before a body sleeps.
#[derive(Debug, Clone, Copy, PartialEq, Eq, Structural)]
pub struct SleepConfig {
    pub(crate) linear_speed_raw: u32,
    pub(crate) angular_speed_raw: u32,
    pub(crate) required_ticks: u8,
}

impl View for SleepConfig {
    /// `(linear speed Q10, angular speed Q16, required ticks)`.
    type V = (u32, u32, u8);

    closed spec fn view(&self) -> (u32, u32, u8) {
        (self.linear_speed_raw, self.angular_speed_raw, self.required_ticks)
    }
}

impl SleepConfig {
    /// Aggressive thresholds for short-lived gameplay effects: `0.05 m/s`,
    /// `0.1 rad/s`, and 16 ticks (`0.25 s` at 64 Hz).
    pub fn fast_effects() -> (c: Self)
        ensures
            c@ == (838_861u32, 1_677_722u32, 16u8),
    {
        Self { linear_speed_raw: 838_861, angular_speed_raw: 1_677_722, required_ticks: 16 }
    }

    #[inline(always)]
    pub fn from_raw(linear_speed_raw: u32, angular_speed_raw: u32, required_ticks: u8) -> (c: Self)
        ensures
            c@ == (linear_speed_raw, angular_speed_raw, required_ticks),
    {
        Self { linear_speed_raw, angular_speed_raw, required_ticks }
    }

    #[inline(always)]
    pub fn linear_speed_raw(self) -> (r: u32)
        ensures
            r == self@.0,
    {
        self.linear_speed_raw
    }

    #[inline(always)]
    pub fn angular_speed_raw(self) -> (r: u32)
        ensures
            r == self@.1,
    {
        self.angular_speed_raw
    }

    #[inline(always)]
    pub fn required_ticks(self) -> (r: u8)
        ensures
            r == self@.2,
    {
        self.required_ticks
    }
}

impl Default for SleepConfig {
    fn default() -> (c: Self)
        ensures
            c@ == (838_861u32, 1_677_722u32, 16u8),
    {
        Self::fast_effects()
    }
}

/// Complete mutable body state required by deterministic rollback.
#[derive(Debug, Clone, Copy, PartialEq, Eq, Hash, Structural)]
pub struct BodyState {
    pub(crate) transform: Transform,
    pub(crate) linear_velocity: LinearVelocity,
    pub(crate) angular_velocity: AngularVelocity,
    pub(crate) sleep_ticks: u8,
    pub(crate) sleeping: bool,
}

impl View for BodyState {
    /// `(transform, linear velocity, angular velocity, sleep ticks, sleeping)`.
    type V = (Transform, LinearVelocity, AngularVelocity, u8, bool);

    closed spec fn view(&self) -> (Transform, LinearVelocity, AngularVelocity, u8, bool) {
        (self.transform, self.linear_velocity, self.angular_velocity, self.sleep_ticks, self.sleeping)
    }
}

/// The viewed state `(transform, linear velocity, angular velocity, sleep
/// ticks, sleeping)`.
pub type StateView = (Transform, LinearVelocity, AngularVelocity, u8, bool);

/// The body is slow enough to count a tick toward sleeping.
pub open spec fn is_slow(s: StateView, config: SleepConfig) -> bool {
    let v = s.1@;
    let limit = config@.0 as int;
    &&& v.0 * v.0 + v.1 * v.1 <= if limit * limit > u64::MAX { u64::MAX as int } else { limit * limit }
    &&& (if s.2@ < 0 { -s.2@ } else { s.2@ as int }) <= config@.1
}

/// State after one sleep update, and whether the body fell asleep on it.
pub open spec fn sleep_update(s: StateView, has_contact: bool, config: SleepConfig) -> (StateView, bool) {
    if s.4 {
        (s, false)
    } else if !has_contact || !is_slow(s, config) {
        ((s.0, s.1, s.2, 0u8, false), false)
    } else {
        let ticks = if s.3 == u8::MAX { u8::MAX } else { (s.3 + 1) as u8 };
        let required = if config@.2 < 1 { 1 } else { config@.2 };
        if ticks < required {
            ((s.0, s.1, s.2, ticks, false), false)
        } else {
            ((s.0, LinearVelocity::spec_zero(), AngularVelocity::spec_zero(), ticks, true), true)
        }
    }
}

impl BodyState {
    /// An awake state with no sleep progress.
    #[inline(always)]
    pub fn new(transform: Transform, linear_velocity: LinearVelocity, angular_velocity: AngularVelocity) -> (s: Self)
        ensures
            s@ == (transform, linear_velocity, angular_velocity, 0u8, false),
    {
        Self { transform, linear_velocity, angular_velocity, sleep_ticks: 0, sleeping: false }
    }

    #[inline(always)]
    pub fn is_sleeping(&self) -> (r: bool)
        ensures
            r == self@.4,
    {
        self.sleeping
    }

    #[inline(always)]
    pub fn transform(&self) -> (t: Transform)
        ensures
            t == self@.0,
    {
        self.transform
    }

    #[inline(always)]
    pub fn linear_velocity(&self) -> (v: LinearVelocity)
        ensures
            v == self@.1,
    {
        self.linear_velocity
    }

    #[inline(always)]
    pub fn angular_velocity(&self) -> (v: AngularVelocity)
        ensures
            v == self@.2,
    {
        self.angular_velocity
    }

    #[inline(always)]
    pub fn sleep_ticks(&self) -> (t: u8)
        ensures
            t == self@.3,
    {
        self.sleep_ticks
    }

    /// Wakes the body after an external force, transform change, or impact.
    #[inline(always)]
    pub fn wake(&mut self)
        ensures
            final(self)@ == (old(self)@.0, old(self)@.1, old(self)@.2, 0u8, false),
    {
        self.sleep_ticks = 0;
        self.sleeping = false;
    }

    #[inline(always)]
    pub fn set_transform(&mut self, transform: Transform)
        ensures
            final(self)@ == (transform, old(self)@.1, old(self)@.2, 0u8, false),
    {
        self.transform = transform;
        self.wake();
    }

    #[inline(always)]
    pub fn set_linear_velocity(&mut self, velocity: LinearVelocity)
        ensures
            final(self)@ == (old(self)@.0, velocity, old(self)@.2, 0u8, false),
    {
        self.linear_velocity = velocity;
        self.wake();
    }

    #[inline(always)]
    pub fn set_angular_velocity(&mut self, velocity: AngularVelocity)
        ensures
            final(self)@ == (old(self)@.0, old(self)@.1, velocity, 0u8, false),
    {
        self.angular_velocity = velocity;
        self.wake();
    }

    /// Integrates one fixed tick. Sleeping bodies deliberately ignore
    /// acceleration (gravity included); external changes must wake them
    /// first. Integration saturates and never fails, so this returns `true`.
    #[inline]
    pub fn checked_integrate(
        &mut self,
        linear_acceleration: LinearAcceleration,
        angular_acceleration: AngularAcceleration,
    ) -> (r: bool)
        ensures
            r,
            old(self)@.4 ==> *final(self) == *old(self),
            !old(self)@.4 ==> ({
                let v = old(self)@.1.spec_advance(linear_acceleration);
                let w = old(self)@.2.spec_advance(angular_acceleration);
                final(self)@ == (
                    Transform { position: old(self)@.0.position.spec_advance(v), angle: old(self)@.0.angle.spec_advance(w) },
                    v,
                    w,
                    old(self)@.3,
                    false,
                )
            }),
            !old(self)@.4 ==> {
                &&& final(self)@.1@.0 as int == clamp_velocity(old(self)@.1@.0 as int + linear_acceleration@.0 as int)
                &&& final(self)@.1@.1 as int == clamp_velocity(old(self)@.1@.1 as int + linear_acceleration@.1 as int)
                &&& final(self)@.0.position@.0 as int == clamp_position(old(self)@.0.position@.0 as int + final(self)@.1@.0 as int)
                &&& final(self)@.0.position@.1 as int == clamp_position(old(self)@.0.position@.1 as int + final(self)@.1@.1 as int)
                &&& final(self)@.2@ as int == clamp_spec(
                    old(self)@.2@ as int + AngularVelocity::spec_velocity_change(angular_acceleration),
                    MIN_ANGULAR_VELOCITY as int,
                    MAX_ANGULAR_VELOCITY as int,
                )
                &&& final(self)@.0.angle@ as int == wrap_u32(old(self)@.0.angle@ as int + final(self)@.2.spec_angle_delta_per_tick())
            },
    {
        if self.sleeping {
            return true;
        }
        let linear = integrate(self.transform.position, self.linear_velocity, linear_acceleration);
        let angular = integrate_angular(self.transform.angle, self.angular_velocity, angular_acceleration);
        self.transform = Transform::new(linear.0, angular.0);
        self.linear_velocity = linear.1;
        self.angular_velocity = angular.1;
        true
    }

    /// Updates the rollback-safe sleep counter after collision solving.
    /// Returns `true` when the body falls asleep on this call.
    #[inline]
    pub fn update_sleep(&mut self, has_contact: bool, config: SleepConfig) -> (r: bool)
        ensures
            (final(self)@, r) == sleep_update(old(self)@, has_contact, config),
    {
        if self.sleeping {
            return false;
        }
        let linear_limit = config.linear_speed_raw as u64;
        let squared_limit = match linear_limit.checked_mul(linear_limit) {
            Some(square) => square,
            None => u64::MAX,
        };
        let slow_linear = self.linear_velocity.raw_sqr_magnitude() <= squared_limit;
        let slow_angular = self.angular_velocity.raw_magnitude() <= config.angular_speed_raw;
        if !has_contact || !slow_linear || !slow_angular {
            self.sleep_ticks = 0;
            return false;
        }
        self.sleep_ticks = if self.sleep_ticks == u8::MAX { u8::MAX } else { self.sleep_ticks + 1 };
        let required = if config.required_ticks < 1 { 1 } else { config.required_ticks };
        if self.sleep_ticks < required {
            return false;
        }
        self.linear_velocity = LinearVelocity::zero();
        self.angular_velocity = AngularVelocity::zero();
        self.sleeping = true;
        true
    }
}

impl Default for BodyState {
    fn default() -> (s: Self)
        ensures
            s@.0.position@ == (0i32, 0i32),
            s@.0.angle@ == 0,
            s@.1@ == (0i32, 0i32),
            s@.2@ == 0,
            s@.3 == 0,
            !s@.4,
    {
        Self::new(Transform::identity(), LinearVelocity::zero(), AngularVelocity::zero())
    }
}

/// A sleeping body's sleep update changes nothing and never reports falling
/// asleep again.
pub proof fn lemma_sleeping_is_stable(s: StateView, has_contact: bool, config: SleepConfig)
    requires
        s.4,
    ensures
        sleep_update(s, has_contact, config) == (s, false),
{
}

/// A body falls asleep only when awake, in contact and slow, and a body
/// reported as falling asleep is then asleep and at rest.
pub proof fn lemma_sleep_requires_contact(s: StateView, has_contact: bool, config: SleepConfig)
    ensures
        sleep_update(s, has_contact, config).1 ==> has_contact && is_slow(s, config) && !s.4,
        sleep_update(s, has_contact, config).1 ==> sleep_update(s, has_contact, config).0.4
            && sleep_update(s, has_contact, config).0.1@ == (0i32, 0i32)
            && sleep_update(s, has_contact, config).0.2@ == 0,
{
    LinearVelocity::lemma_spec_zero();
    AngularVelocity::lemma_spec_zero();
}

/// The state after `k` consecutive sleep updates in contact.
pub open spec fn updates_in_contact(s: StateView, config: SleepConfig, k: nat) -> StateView
    decreases k,
{
    if k == 0 {
        s
    } else {
        sleep_update(updates_in_contact(s, config, (k - 1) as nat), true, config).0
    }
}

/// An awake, slow body with no sleep progress counts one tick per update in
/// contact: after `k` updates below the required count the counter is `k`,
/// every update reported no sleep, the velocities are untouched, and losing
/// contact on the next update resets the counter. The update that reaches the
/// required count puts the body to sleep.
pub proof fn lemma_contact_ticks_accumulate(s: StateView, config: SleepConfig, k: nat)
    requires
        !s.4,
        s.3 == 0,
        is_slow(s, config),
        k < config@.2,
    ensures
        updates_in_contact(s, config, k) == (s.0, s.1, s.2, k as u8, false),
        forall|j: nat| j < k ==> !(#[trigger] sleep_update(updates_in_contact(s, config, j), true, config)).1,
        sleep_update(updates_in_contact(s, config, k), false, config) == ((s.0, s.1, s.2, 0u8, false), false),
        k + 1 == config@.2 ==> sleep_update(updates_in_contact(s, config, k), true, config).1
            && sleep_update(updates_in_contact(s, config, k), true, config).0.4,
    decreases k,
{
    if k > 0 {
        lemma_contact_ticks_accumulate(s, config, (k - 1) as nat);
        assert forall|j: nat| j < k implies !(#[trigger] sleep_update(updates_in_contact(s, config, j), true, config)).1 by {
            if j < k - 1 {
            } else {
                assert(j == k - 1);
            }
        }
    }
}

} // verus!
