//! Camera abstraction for a real-time renderer, with the parts of its
//! screen-space arithmetic that can be decided on bit patterns.
pub mod binary32;
pub mod camera;
pub mod homogeneous;

pub use crate::camera::Camera;
pub use crate::homogeneous::is_near_zero;
pub use crate::homogeneous::stabilize_w;
