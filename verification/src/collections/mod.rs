//! Bounded collections whose capacity is part of their type.
pub mod bounded_deque;
pub mod bounded_queue;
pub mod index_map;
pub mod index_set;
