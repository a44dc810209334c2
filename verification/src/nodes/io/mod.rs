//! Processes that move data between nodes and the outside world.
pub mod logger;
pub mod serial;
pub mod bounce_cleaner;
