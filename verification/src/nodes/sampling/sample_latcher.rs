use core::marker::PhantomData;
use vstd::prelude::*;

verus! {

/// Holds the last sample taken: copies each new sample to its output.
pub struct SampleLatcher<T: Clone>(PhantomData<T>);

impl<T: Clone> SampleLatcher<T> {
    pub fn new() -> Self {
        Self(PhantomData)
    }

    /// A new sample replaces the output; without one the output stays.
    pub fn resume(&mut self, sample_input: &Option<T>, latch_output: &mut T)
        ensures
            sample_input matches Some(s) ==> cloned(*s, *final(latch_output)),
            sample_input is None ==> *final(latch_output) == *old(latch_output),
    {
        if let Some(sample_value) = sample_input {
            *latch_output = sample_value.clone();
        }
    }
}

} // verus!
