//! The clock of the base layer.
pub mod clock;
