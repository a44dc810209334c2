//! Processes that compute a node from other nodes with a function.
pub mod func;
pub mod signal_gen;
