pub mod id;
pub mod material;
pub mod rigid_body;
pub mod state;
pub mod static_body;

pub use id::BodyId;
pub use material::Material;
pub use rigid_body::Body;
pub use state::{BodyState, SleepConfig};
pub use static_body::StaticBody;
