use vstd::prelude::*;
use crate::nodes::signals::activation_signal::ActivationSignal;

verus! {

/// Takes a sample of a value whenever the activation signal is raised.
pub struct Sampler<T: Clone> {
    current_sample: Option<T>,
}

impl<T: Clone> Sampler<T> {
    /// The sample the sampler holds for itself, if any.
    pub closed spec fn spec_current_sample(&self) -> Option<T> {
        self.current_sample
    }

    pub fn new() -> (s: Self)
        ensures
            s.spec_current_sample() == None::<T>,
    {
        Self { current_sample: None }
    }

    /// With the signal raised, the output becomes a sample (a clone) of the value;
    /// otherwise it becomes empty.
    pub fn resume(&mut self, activation_signal: &ActivationSignal, value_source: &T, sample_output: &mut Option<T>)
        ensures
            activation_signal is Some ==> (*final(sample_output) matches Some(v) && cloned(*value_source, v)),
            activation_signal is None ==> *final(sample_output) == None::<T>,
    {
        if activation_signal.is_some() {
            let value = value_source.clone();
            *sample_output = Some(value);
        } else if sample_output.is_some() {
            *sample_output = None;
        }
    }
}

} // verus!
