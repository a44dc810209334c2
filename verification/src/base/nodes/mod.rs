//! Nodes of the base layer and the processes that compute over them.
pub mod base;
pub mod function;
pub mod io;
pub mod sampling;
pub mod stepper;
pub mod timing;
