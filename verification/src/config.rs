pub mod manager;
pub use manager::{CameraConfig, ConfigFields};
