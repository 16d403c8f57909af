//! The decision logic of the Blue compositor: which window an input event
//! reaches, what a shell message changes, how outputs are laid out and
//! configured, and which protocol events a client is owed.
//!
//! Wayland objects, windows, outputs and GPU nodes appear here as plain
//! identifiers. A caller that owns the real objects hands in what it has read
//! from them and carries out the actions that the functions return.

pub mod environment;
pub mod geometry;
pub mod input;
pub mod ipc;
pub mod maps;
pub mod output;
pub mod protocols;
pub mod render;
pub mod search;
pub mod state;
pub mod text;
