//! Narrow-phase contact generation.

pub mod circle_circle;
pub mod circle_convex;
pub mod contact;
pub mod convex_convex;
pub mod dispatch;

pub use circle_circle::collide as collide_circles;
pub use contact::{ColliderFeature, Contact, ContactManifold};
