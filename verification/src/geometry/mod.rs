pub mod aabb;
pub mod point;
pub mod unit_vector;
pub mod vec;

pub use aabb::Aabb;
pub use point::GeometryPoint;
pub use unit_vector::UnitVector;
pub use vec::RawVec2;
