//! Decision logic of the carrot Wayland compositor.
pub mod bytes;
pub mod dbus;
pub mod list;
pub mod output;
pub mod pipewire;
pub mod portal;
pub mod protocol;
pub mod rect;
pub mod render;
pub mod shell;
pub mod sighand;
pub mod text;
