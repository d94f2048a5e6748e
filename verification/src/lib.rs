//! Terminal emulator core: Hangul composition, the terminal screen model
//! with its escape-sequence handling, and the colour palette.

pub mod ime;
pub mod session;
pub mod terminal;
pub mod utils;
