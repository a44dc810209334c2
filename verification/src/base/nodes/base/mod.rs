//! Nodes, processes and the keeping of periodic cycles.
pub mod time_keeper;
pub mod node;
pub mod proc;
