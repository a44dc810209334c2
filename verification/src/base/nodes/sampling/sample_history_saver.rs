use vstd::prelude::*;
use crate::base::nodes::base::node::NodeRef;
use crate::base::nodes::sampling::sample_history::SampleHistory;
use crate::base::nodes::sampling::sample_node::SampleNodeRef;

verus! {

/// Pushes each new sample of a sample node into a history node.
#[verifier::reject_recursive_types(T)]
#[verifier::reject_recursive_types(history_size)]
pub struct SampleHistorySaver<'a, T: Clone, const history_size: usize> {
    input: SampleNodeRef<'a, T>,
    output: NodeRef<'a, SampleHistory<T, history_size>>,
}

impl<'a, T: Clone, const history_size: usize> SampleHistorySaver<'a, T, history_size> {
    pub closed spec fn spec_input(&self) -> SampleNodeRef<'a, T> {
        self.input
    }

    pub closed spec fn spec_output(&self) -> NodeRef<'a, SampleHistory<T, history_size>> {
        self.output
    }

    pub fn new(input: SampleNodeRef<'a, T>, output: NodeRef<'a, SampleHistory<T, history_size>>) -> (s: Self)
        ensures
            s.spec_input() == input,
            s.spec_output() == output,
    {
        Self { input, output }
    }

    /// A reference to the sample node.
    pub fn input_node(&self) -> (r: SampleNodeRef<'a, T>)
        ensures
            r.kernel() == self.spec_input().kernel(),
    {
        self.input.clone()
    }

    /// A reference to the history node.
    pub fn output_node(&self) -> (r: NodeRef<'a, SampleHistory<T, history_size>>)
        ensures
            r.kernel() == self.spec_output().kernel(),
    {
        self.output.clone()
    }

    /// Pushes a clone of `sample` into `output`.
    pub fn save(sample: &T, output: &mut SampleHistory<T, history_size>)
        requires
            old(output).spec_full_len() < usize::MAX,
        ensures
            final(output).spec_full_len() == old(output).spec_full_len() + 1,
            cloned(*sample, final(output).samples().last()),
            final(output).samples() == if old(output).samples().len() == history_size {
                old(output).samples().drop_first().push(final(output).samples().last())
            } else {
                old(output).samples().push(final(output).samples().last())
            },
    {
        proof {
            use_type_invariant(&*output);
        }
        let value = sample.clone();
        output.push_sample(value);
    }
}

} // verus!
