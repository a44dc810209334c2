//! Types shared by nodes and processes.
pub mod rolling_deque;
pub mod timing;
pub mod cat_types;
pub mod digital_value;
pub mod interleaver;
