//! What keys, pointer buttons and drags do.

pub mod grab;
pub mod keyboard;
pub mod pointer;
