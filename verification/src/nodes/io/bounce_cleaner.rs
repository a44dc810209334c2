use vstd::prelude::*;
use crate::base::common_types::digital_value::{level_of, DigitalValue};
use crate::base::nodes::io::bounce_cleaner::{cleaned_level, high_count};
use crate::base::nodes::sampling::sample_history::{FullIndex, SampleHistory};

verus! {

/// Cleans the bounces of a digital input: when a history holds a sample newer than
/// the last one seen, the output gets the cleaned level of the history.
pub struct BounceCleaner<const sample_queue_size: usize> {
    last_full_index: FullIndex,
}

impl<const sample_queue_size: usize> BounceCleaner<sample_queue_size> {
    /// The full index of the newest sample seen.
    pub closed spec fn last_seen(&self) -> usize {
        self.last_full_index.0
    }

    /// A cleaner that has seen the sample of full index 0.
    pub fn new() -> (c: Self)
        ensures
            c.last_seen() == 0,
    {
        Self { last_full_index: FullIndex(0) }
    }

    /// When the newest sample of the history comes after the last one seen, the
    /// output gets the cleaned level (high when at least half as many kept samples
    /// as the history can keep are high) and the newest sample is seen; otherwise
    /// nothing changes. The history must hold a sample.
    pub fn resume(
        &mut self,
        sample_history: &SampleHistory<DigitalValue, sample_queue_size>,
        output: &mut DigitalValue,
    )
        requires
            sample_history.spec_full_len() > 0,
        ensures
            sample_history.spec_full_len() - 1 > old(self).last_seen() ==> {
                &&& *final(output) == level_of(high_count(sample_history.samples()) >= sample_queue_size / 2)
                &&& final(self).last_seen() == sample_history.spec_full_len() - 1
            },
            sample_history.spec_full_len() - 1 <= old(self).last_seen() ==> *final(output) == *old(output)
                && final(self).last_seen() == old(self).last_seen(),
    {
        let last = sample_history.get_last_full_index();
        if last.0 > self.last_full_index.0 {
            *output = cleaned_level(sample_history);
            self.last_full_index = last;
        }
    }
}

} // verus!
