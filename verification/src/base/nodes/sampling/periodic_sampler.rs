use vstd::prelude::*;
use crate::base::common_types::timing::{Duration, Time};
use crate::base::nodes::base::node::{ref_get, refmut_get_mut, NodeBorrowError, NodeRef};
use crate::base::nodes::base::time_keeper::{cycles_between, CyclesKeeper};
use crate::base::nodes::sampling::sample_node::SampleNodeRef;

verus! {

/// Takes a sample of its input node once per period into its output sample node,
/// and empties the output between samples.
#[verifier::reject_recursive_types(T)]
pub struct PeriodicSampler<'a, T: Clone> {
    pub input: NodeRef<'a, T>,
    pub output: SampleNodeRef<'a, T>,
    cycles_keeper: CyclesKeeper,
}

impl<'proc, T: Clone> PeriodicSampler<'proc, T> {
    pub closed spec fn keeper(&self) -> CyclesKeeper {
        self.cycles_keeper
    }

    pub closed spec fn spec_input(&self) -> NodeRef<'proc, T> {
        self.input
    }

    pub closed spec fn spec_output(&self) -> SampleNodeRef<'proc, T> {
        self.output
    }

    /// A sampler whose first period starts at time 0.
    pub fn new<'node: 'proc>(input: NodeRef<'node, T>, output: SampleNodeRef<'node, T>, period: Duration) -> (s: Self)
        ensures
            s.spec_input() == input,
            s.spec_output() == output,
            s.keeper().duration() == period,
            s.keeper().start() == 0,
    {
        PeriodicSampler { input, output, cycles_keeper: CyclesKeeper::new(period) }
    }

    /// Catches the periods up with `input`; when at least one period passed, the
    /// output gets a sample of the input node, and otherwise it is emptied. A
    /// refused borrow is the error.
    pub fn next(&mut self, input: &Time) -> (r: Result<(), NodeBorrowError>)
        requires
            *input >= old(self).keeper().start(),
            old(self).keeper().duration() > 0,
        ensures
            r matches Err(e) ==> !(e is Write),
            final(self).spec_input().kernel() == old(self).spec_input().kernel(),
            final(self).spec_output().kernel() == old(self).spec_output().kernel(),
            final(self).keeper().duration() == old(self).keeper().duration(),
            final(self).keeper().start() <= *input,
            final(self).keeper().start() == old(self).keeper().start() + (cycles_between(
                old(self).keeper().start(),
                old(self).keeper().duration(),
                *input,
            ) % 0x1_0000_0000) * old(self).keeper().duration(),
    {
        let cycles = self.cycles_keeper.get_cycles_and_update(input);
        let mut output_ref_mut = match self.output.try_borrow_mut() {
            Ok(guard) => guard,
            Err(e) => {
                return Err(NodeBorrowError::BorrowMut(e));
            },
        };
        if cycles > 0 {
            let input_ref = match self.input.try_borrow() {
                Ok(guard) => guard,
                Err(e) => {
                    return Err(NodeBorrowError::Borrow(e));
                },
            };
            Self::sample_turn(cycles, Some(ref_get(&input_ref)), refmut_get_mut(&mut output_ref_mut));
        } else {
            Self::sample_turn(cycles, None, refmut_get_mut(&mut output_ref_mut));
        }
        Ok(())
    }

    /// The output of a turn in which `cycles` periods passed: a clone of the input
    /// value when at least one did, and nothing otherwise.
    pub fn sample_turn(cycles: u32, input: Option<&T>, output: &mut Option<T>)
        requires
            cycles > 0 ==> input is Some,
        ensures
            cycles > 0 ==> (*final(output) matches Some(v) && cloned(*input.unwrap(), v)),
            cycles == 0 ==> *final(output) == None::<T>,
    {
        if cycles > 0 {
            let value = input.unwrap().clone();
            assert(cloned(*input.unwrap(), value));
            *output = Some(value);
        } else if output.is_some() {
            *output = None;
        }
    }
}

} // verus!
