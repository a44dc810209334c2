//! Processes that drive outputs.
pub mod logger;
pub mod pwm;
pub mod serial;
pub mod bounce_cleaner;
