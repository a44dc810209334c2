use vstd::prelude::*;

verus! {

/// A process: a step of computation that takes an input and gives an output.
pub trait Process {
    type NextOutput<'output>;

    type NextInput<'input>;

    fn next<'input, 'output>(&mut self, input: Self::NextInput<'input>) -> Self::NextOutput<'output>;
}

/// A process that takes no input and may fail.
pub trait SimpleProcess {
    type TError;

    fn next(&mut self) -> Result<(), Self::TError>;
}

impl<TSelf> Process for TSelf where TSelf: SimpleProcess {
    type NextOutput<'output> = Result<(), <TSelf as SimpleProcess>::TError>;

    type NextInput<'input> = ();

    /// A step of the simple process; it takes nothing.
    fn next<'input, 'output>(&mut self, input: Self::NextInput<'input>) -> Self::NextOutput<'output> {
        SimpleProcess::next(self)
    }
}

} // verus!
