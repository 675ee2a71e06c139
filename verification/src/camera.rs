pub mod manager;
pub use manager::{CameraInfo, CameraManager, Frame, PixelFormat};
