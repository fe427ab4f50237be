//! Rendering: finding the driver and the device, and what each frame records.

pub mod holding;
pub mod loader;
pub mod playback;
pub mod renderer;
pub mod resources;
pub mod vulkan;
