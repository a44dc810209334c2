use core::marker::PhantomData;
use vstd::prelude::*;

verus! {

/// Writes `func` of its input to its output at every turn.
#[verifier::reject_recursive_types(TInput)]
#[verifier::reject_recursive_types(TOutput)]
pub struct UnaryFunc<TInput, TOutput, TFunc> where TFunc: FnMut(&TInput) -> TOutput {
    pub func: TFunc,
    io_phantom: PhantomData<(TInput, TOutput)>,
}

impl<TInput, TOutput, TFunc> UnaryFunc<TInput, TOutput, TFunc> where TFunc: FnMut(&TInput) -> TOutput {
    pub closed spec fn spec_func(&self) -> TFunc {
        self.func
    }

    pub fn new(func: TFunc) -> (f: Self)
        ensures
            f.spec_func() == func,
    {
        Self { func, io_phantom: PhantomData }
    }

    /// The output becomes `func` of the input.
    pub fn resume(&mut self, input: &TInput, output: &mut TOutput)
        requires
            call_requires(old(self).spec_func(), (input,)),
        ensures
            call_ensures(old(self).spec_func(), (input,), *final(output)),
    {
        let new_output = (self.func)(input);
        *output = new_output;
    }
}

/// Writes `func` of its two inputs to its output at every turn.
#[verifier::reject_recursive_types(TInput0)]
#[verifier::reject_recursive_types(TInput1)]
#[verifier::reject_recursive_types(TOutput)]
pub struct BinaryFunc<TInput0, TInput1, TOutput, TFunc> where TFunc: FnMut(&TInput0, &TInput1) -> TOutput {
    pub func: TFunc,
    io_phantom: PhantomData<(TInput0, TInput1, TOutput)>,
}

impl<TInput0, TInput1, TOutput, TFunc> BinaryFunc<TInput0, TInput1, TOutput, TFunc> where
    TFunc: FnMut(&TInput0, &TInput1) -> TOutput,
 {
    pub closed spec fn spec_func(&self) -> TFunc {
        self.func
    }

    pub fn new(func: TFunc) -> (f: Self)
        ensures
            f.spec_func() == func,
    {
        Self { func, io_phantom: PhantomData }
    }

    /// The output becomes `func` of the inputs.
    pub fn resume(&mut self, input_0: &TInput0, input_1: &TInput1, output_dest: &mut TOutput)
        requires
            call_requires(old(self).spec_func(), (input_0, input_1)),
        ensures
            call_ensures(old(self).spec_func(), (input_0, input_1), *final(output_dest)),
    {
        *output_dest = (self.func)(input_0, input_1);
    }
}

} // verus!
