//! Processes that carry requests between two request slots, or between a queue and a slot.
pub mod converter;
pub mod queue_to_simple_req_converter;
