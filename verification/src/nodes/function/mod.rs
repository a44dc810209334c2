//! Processes that compute a value from others with a function.
pub mod procs;
