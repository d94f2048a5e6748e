//! The terminal screen model and the handling of what the shell writes to it.

pub mod laws;
pub mod performer;
pub mod render;
pub mod state;
