//! Nodes & processes: a small dataflow runtime for embedded systems.
//! Nodes hold data shared by the system; processes compute over nodes.
use vstd::prelude::*;

pub mod base;
pub mod collections;
pub mod nodes;
pub mod text;

verus! {
} // verus!
