use core::marker::PhantomData;
use vstd::prelude::*;

verus! {

/// A process that calls a function with its arguments.
pub struct FnProc<TFn, TArgs> where TFn: FnMut(TArgs) {
    pub fun: TFn,
    _args_phantom: PhantomData<TArgs>,
}

impl<TFn, TArgs> FnProc<TFn, TArgs> where TFn: FnMut(TArgs) {
    pub closed spec fn spec_fun(&self) -> TFn {
        self.fun
    }

    pub fn new(fun: TFn) -> (p: Self)
        ensures
            p.spec_fun() == fun,
    {
        Self { fun, _args_phantom: PhantomData }
    }

    /// Calls the function with `args`.
    pub fn resume(&mut self, args: TArgs)
        requires
            call_requires(old(self).spec_fun(), (args,)),
        ensures
            call_ensures(old(self).spec_fun(), (args,), ()),
    {
        (self.fun)(args)
    }
}

} // verus!
