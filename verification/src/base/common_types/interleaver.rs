use core::marker::PhantomData;
use vstd::prelude::*;

verus! {

/// Takes items from several iterators in turn.
pub struct Interleaver<TItem, TIterIter> {
    iters: TIterIter,
    item: PhantomData<TItem>,
}

impl<TItem, TIterIter> Interleaver<TItem, TIterIter> {
    pub closed spec fn spec_iters(&self) -> TIterIter {
        self.iters
    }

    /// An interleaver over the iterators that `iters` gives.
    pub fn new(iters: TIterIter) -> (i: Self)
        ensures
            i.spec_iters() == iters,
    {
        Self { iters, item: PhantomData }
    }
}

} // verus!
