use vstd::prelude::*;
use crate::base::nodes::base::proc::SimpleProcess;
use crate::base::nodes::base::node::{ref_get, refmut_put, Node, NodeBorrowError, NodeRef};
use crate::base::nodes::sampling::sample_node::{SampleNode, SampleNodeRef};

verus! {

/// Holds the last sample of a sample node in a node of its own.
#[verifier::reject_recursive_types(T)]
pub struct SampleLatcher<'node_ref, T: Clone> {
    pub sample_input: SampleNodeRef<'node_ref, T>,
    pub latch_output: NodeRef<'node_ref, T>,
}

impl<'node_ref, T: Clone> SampleLatcher<'node_ref, T> {
    /// A latcher from `sample_input` to `latch_output`.
    pub fn new(latch_output: &'node_ref Node<T>, sample_input: &'node_ref SampleNode<T>) -> (l: Self)
        ensures
            l.latch_output.kernel() == latch_output,
            l.sample_input.kernel() == sample_input,
    {
        let latch_output = latch_output.make_ref();
        let sample_input = sample_input.make_ref();
        Self { sample_input, latch_output }
    }
}

impl<'node_ref, T: Clone> SampleLatcher<'node_ref, T> {
    /// The value a turn with the sample `sample` writes to the output: a clone of
    /// the sample when there is one, and nothing otherwise.
    pub fn latched(sample: &Option<T>) -> (w: Option<T>)
        ensures
            sample is None ==> w is None,
            sample matches Some(v) ==> (w matches Some(c) && cloned(*v, c)),
    {
        match sample {
            Some(v) => {
                let c = v.clone();
                assert(cloned(*v, c));
                Some(c)
            },
            None => None,
        }
    }
}

impl<'node_ref, T: Clone> SimpleProcess for SampleLatcher<'node_ref, T> {
    type TError = NodeBorrowError;

    /// Copies the sample, when there is one, to the output node. A refused borrow
    /// is the error.
    fn next(&mut self) -> (r: Result<(), NodeBorrowError>)
        ensures
            r matches Err(e) ==> !(e is Write),
            final(self).sample_input.kernel() == old(self).sample_input.kernel(),
            final(self).latch_output.kernel() == old(self).latch_output.kernel(),
    {
        let sample_ref = match self.sample_input.try_borrow() {
            Ok(guard) => guard,
            Err(e) => {
                return Err(NodeBorrowError::Borrow(e));
            },
        };
        if let Some(value) = Self::latched(ref_get(&sample_ref)) {
            let mut output_node = self.latch_output.clone();
            let mut output_ref = match output_node.try_borrow_mut() {
                Ok(guard) => guard,
                Err(e) => {
                    return Err(NodeBorrowError::BorrowMut(e));
                },
            };
            let _ = refmut_put(&mut output_ref, value);
        }
        Ok(())
    }
}

} // verus!
