//! Outputs, the GPUs that drive them, and what is drawn when.

pub mod frame;
pub mod modeset;
pub mod multigpu;
pub mod scan;
pub mod udev;
pub mod winit;
