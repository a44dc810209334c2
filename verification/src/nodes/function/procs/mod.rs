//! Functions of one and two values as processes.
pub mod fn_procs;
