//! Input-method support.

pub mod korean;
