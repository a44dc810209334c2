use vstd::prelude::*;
use crate::base::nodes::base::proc::SimpleProcess;
use crate::base::nodes::base::node::{ref_get, refmut_put, NodeBorrowError};
use crate::base::nodes::sampling::sample_node::{try_has_value, SampleNodeRef};
use crate::base::nodes::timing::clock::{ClockNodeRef, ClockReading};

verus! {

/// Marks with a clock reading each turn in which its input holds a sample, and
/// empties its output once the samples stop.
#[verifier::reject_recursive_types(T)]
pub struct SampleTimer<'a, T> {
    input: SampleNodeRef<'a, T>,
    clock_reading: ClockNodeRef<'a>,
    output: SampleNodeRef<'a, ClockReading>,
    has_output: bool,
}

impl<'a, T> SampleTimer<'a, T> {
    /// Whether the output was last given a reading.
    pub closed spec fn spec_has_output(&self) -> bool {
        self.has_output
    }

    pub fn new(
        input: SampleNodeRef<'a, T>,
        clock_reading: ClockNodeRef<'a>,
        output: SampleNodeRef<'a, ClockReading>,
    ) -> (t: Self)
        ensures
            !t.spec_has_output(),
    {
        Self { input, clock_reading, output, has_output: false }
    }
}

impl<'a, T> SampleTimer<'a, T> {
    /// What a turn writes to the output, given the clock reading when the input
    /// holds a sample: that reading; without a sample, nothing to an output not
    /// given a reading, and an empty output to one that was.
    pub fn output_change(&self, reading: Option<ClockReading>) -> (w: Option<Option<ClockReading>>)
        ensures
            reading matches Some(c) ==> w == Some(Some(c)),
            reading is None ==> w == if self.spec_has_output() {
                Some(None::<ClockReading>)
            } else {
                None::<Option<ClockReading>>
            },
    {
        match reading {
            Some(c) => Some(Some(c)),
            None => if self.has_output {
                Some(None)
            } else {
                None
            },
        }
    }
}

impl<'a, T> SimpleProcess for SampleTimer<'a, T> {
    type TError = NodeBorrowError;

    /// With a sample in the input, the output gets the clock reading; without one,
    /// an output given a reading is emptied. The output is borrowed before the
    /// clock. A refused borrow is the error, and then the mark of an output given
    /// stays.
    fn next(&mut self) -> (r: Result<(), NodeBorrowError>)
        ensures
            r matches Err(e) ==> !(e is Write),
            r is Err ==> final(self).spec_has_output() == old(self).spec_has_output(),
    {
        let has_value = match try_has_value(&self.input) {
            Ok(b) => b,
            Err(e) => {
                return Err(NodeBorrowError::Borrow(e));
            },
        };
        if !has_value && !self.has_output {
            return Ok(());
        }
        let mut output_node = self.output.clone();
        let mut output_ref = match output_node.try_borrow_mut() {
            Ok(guard) => guard,
            Err(e) => {
                return Err(NodeBorrowError::BorrowMut(e));
            },
        };
        let reading = if has_value {
            match self.clock_reading.try_borrow() {
                Ok(guard) => Some(*ref_get(&guard)),
                Err(e) => {
                    return Err(NodeBorrowError::Borrow(e));
                },
            }
        } else {
            None
        };
        if let Some(value) = self.output_change(reading) {
            let given = value.is_some();
            let _ = refmut_put(&mut output_ref, value);
            self.has_output = given;
        }
        Ok(())
    }
}

} // verus!
