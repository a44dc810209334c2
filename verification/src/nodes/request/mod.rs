//! Requests between a client and a server: a single request slot and a bounded queue.
pub mod request;
pub mod request_queue;
pub mod conversion;
