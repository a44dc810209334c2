//! Processes made from plain functions.
pub mod fns;
pub mod coroutines;
