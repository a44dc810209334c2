//! Time readings, periodic activations and counters.
pub mod base;
pub mod clock;
pub mod periodic;
pub mod spin_counter;
