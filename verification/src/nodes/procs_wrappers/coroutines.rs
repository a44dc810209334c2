use core::marker::PhantomData;
use core::pin::Pin;
use vstd::prelude::*;

verus! {

#[verifier::external_type_specification]
#[verifier::external_body]
#[verifier::reject_recursive_types(Ptr)]
pub struct ExPin<Ptr>(Pin<Ptr>);

/// A process that resumes a pinned coroutine with its arguments.
#[verifier::reject_recursive_types(TCorrDeref)]
pub struct CoroutineProcess<TCorr, TCorrDeref, TArgs> {
    coroutine: Pin<TCorrDeref>,
    phantom: PhantomData<(TCorr, TArgs)>,
}

impl<TCorr, TCorrDeref, TArgs> CoroutineProcess<TCorr, TCorrDeref, TArgs> {
    pub closed spec fn spec_coroutine(&self) -> Pin<TCorrDeref> {
        self.coroutine
    }

    pub fn new(corr: Pin<TCorrDeref>) -> (p: Self)
        ensures
            p.spec_coroutine() == corr,
    {
        Self { coroutine: corr, phantom: PhantomData }
    }
}

} // verus!
