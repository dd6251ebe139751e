//! Fixed-point physical quantities used by the simulation.
//!
//! Each physical dimension has its own public type even when two quantities
//! share a storage format, so that acceleration cannot be added to a position
//! by accident.

pub mod angle;
pub mod angular_acceleration;
pub mod angular_velocity;
pub mod cordic;
pub mod damping;
pub mod force;
pub mod integration;
pub mod length;
pub mod linear_acceleration;
pub mod linear_velocity;
pub mod mass;
pub mod position;
pub mod raw;

pub use angle::{Angle, AngleDelta};
pub use angular_acceleration::AngularAcceleration;
pub use angular_velocity::AngularVelocity;
pub use damping::Damping;
pub use force::Force;
pub use integration::{integrate, integrate_angular};
pub use length::Length;
pub use linear_acceleration::LinearAcceleration;
pub use linear_velocity::LinearVelocity;
pub use mass::Mass;
pub use position::Position;
pub use raw::DiffVec2;

use vstd::prelude::*;

verus! {

/// Number of fixed simulation ticks in one second.
pub const TICKS_PER_SECOND: u32 = 64;

/// Fractional bits of positions and lengths.
pub const POSITION_FRACTION_BITS: u32 = 16;
/// Fractional bits of linear velocity.
pub const LINEAR_VELOCITY_FRACTION_BITS: u32 = 10;
/// Fractional bits of linear acceleration.
pub const LINEAR_ACCELERATION_FRACTION_BITS: u32 = 4;
/// Fractional bits of angular velocity.
pub const ANGULAR_VELOCITY_FRACTION_BITS: u32 = 16;
/// Fractional bits of angular acceleration.
pub const ANGULAR_ACCELERATION_FRACTION_BITS: u32 = 24;
/// One tick of a Q24 angular acceleration is a Q16 angular velocity shifted by 14 bits.
pub const ANGULAR_ACCELERATION_TO_VELOCITY_SHIFT: u32 = 14;

} // verus!
