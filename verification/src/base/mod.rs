//! The base layer: common types, nodes and the first processes built on them.
pub mod common_types;
pub mod extensions;
pub mod nodes;
