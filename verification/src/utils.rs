//! Shared helpers: colours and character widths.

pub mod color;
pub mod width;
