//! Nodes and the processes that compute over them.
pub mod request;
pub mod queue;
pub mod io;
pub mod timing;
pub mod sampling;
pub mod signals;
pub mod function;
pub mod procs_wrappers;
pub mod stepper;
