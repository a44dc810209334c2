use core::cell::BorrowError;
use vstd::prelude::*;
use crate::base::nodes::base::node::{ref_get, Node, NodeRef};

verus! {

/// A node that holds a sample, or nothing between samples.
pub type SampleNode<T> = Node<Option<T>>;

/// A reference to a sample node.
pub type SampleNodeRef<'a, T> = NodeRef<'a, Option<T>>;

impl<'a, T> NodeRef<'a, Option<T>> {
    /// Whether the sample node referred to holds a sample; a refused borrow is the
    /// error.
    pub fn try_has_value(&self) -> (r: Result<bool, BorrowError>) {
        try_has_value(self)
    }
}

/// Whether the sample node referred to holds a sample; a refused borrow is the error.
pub fn try_has_value<T>(node_ref: &SampleNodeRef<'_, T>) -> (r: Result<bool, BorrowError>) {
    let guard = match node_ref.try_borrow() {
        Ok(guard) => guard,
        Err(e) => {
            return Err(e);
        },
    };
    let is_some = ref_get(&guard).is_some();
    Ok(is_some)
}

} // verus!
