//! The Wayland protocols whose state the compositor keeps itself.

pub mod dmabuf;
pub mod foreign_toplevel;
pub mod hotplug;
pub mod idle_inhibit;
pub mod input_method;
pub mod output_management;
pub mod screencopy;
