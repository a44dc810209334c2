//! Signals that processes exchange.
pub mod activation_signal;
