use core::marker::PhantomData;
use vstd::prelude::*;
use crate::base::nodes::sampling::sample_history::SampleHistory;

verus! {

/// Pushes each new sample into a history of samples.
pub struct SampleHistorySaver<T: Clone, const history_size: usize>(PhantomData<T>);

impl<T: Clone, const history_size: usize> SampleHistorySaver<T, history_size> {
    pub fn new() -> Self {
        Self(PhantomData)
    }

    /// A new sample is pushed (a clone of it) into the history; without one the
    /// history stays.
    pub fn resume(&mut self, sample: &Option<T>, sample_history: &mut SampleHistory<T, history_size>)
        requires
            old(sample_history).wf(),
            sample is Some ==> old(sample_history).spec_full_len() < usize::MAX,
        ensures
            final(sample_history).wf(),
            sample is None ==> *final(sample_history) == *old(sample_history),
            sample matches Some(s) ==> {
                &&& final(sample_history).spec_full_len() == old(sample_history).spec_full_len() + 1
                &&& exists|c: T|
                    #![trigger cloned(*s, c)]
                    cloned(*s, c) && final(sample_history).samples() == if old(sample_history).samples().len()
                        == history_size {
                        old(sample_history).samples().drop_first().push(c)
                    } else {
                        old(sample_history).samples().push(c)
                    }
            },
    {
        if let Some(sample) = sample {
            let value = sample.clone();
            assert(cloned(*sample, value));
            sample_history.push_sample(value);
        }
    }
}

} // verus!
