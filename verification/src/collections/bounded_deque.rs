use vstd::prelude::*;

verus! {

/// A double-ended queue that holds at most `N` items.
pub struct Deque<T, const N: usize> {
    items: Vec<T>,
}

impl<T, const N: usize> View for Deque<T, N> {
    type V = Seq<T>;

    /// The items of the deque, front first.
    open spec fn view(&self) -> Seq<T> {
        self.spec_items()
    }
}

impl<T, const N: usize> Deque<T, N> {
    pub closed spec fn spec_items(&self) -> Seq<T> {
        self.items@
    }

    /// Well-formedness: at least one slot, and no more items than slots. Every
    /// deque keeps it.
    #[verifier::type_invariant]
    pub open spec fn wf(&self) -> bool {
        &&& N > 0
        &&& self@.len() <= N
    }

    /// Creates an empty deque; a deque of no slots is refused.
    pub fn new() -> (d: Self)
        requires
            N > 0,
        ensures
            d.wf(),
            d@ == Seq::<T>::empty(),
    {
        Deque { items: Vec::new() }
    }

    pub fn capacity(&self) -> (c: usize)
        ensures
            c == N,
    {
        N
    }

    pub fn len(&self) -> (l: usize)
        ensures
            l == self@.len(),
    {
        self.items.len()
    }

    pub fn is_empty(&self) -> (b: bool)
        ensures
            b == (self@.len() == 0),
    {
        self.items.len() == 0
    }

    pub fn is_full(&self) -> (b: bool)
        ensures
            b == (self@.len() == N),
    {
        self.items.len() == N
    }

    /// The item at position `index` from the front, if any.
    pub fn get(&self, index: usize) -> (r: Option<&T>)
        ensures
            index < self@.len() ==> r == Some(&self@[index as int]),
            index >= self@.len() ==> r is None,
    {
        if index < self.items.len() {
            Some(&self.items[index])
        } else {
            None
        }
    }

    /// The item at the back, if any.
    pub fn back(&self) -> (r: Option<&T>)
        ensures
            self@.len() == 0 ==> r is None,
            self@.len() > 0 ==> r == Some(&self@.last()),
    {
        if self.items.len() == 0 {
            None
        } else {
            Some(&self.items[self.items.len() - 1])
        }
    }

    pub fn push_back(&mut self, val: T) -> (r: Result<(), T>)
        requires
            old(self).wf(),
        ensures
            final(self).wf(),
            old(self)@.len() < N ==> r is Ok && final(self)@ == old(self)@.push(val),
            old(self)@.len() == N ==> r == Err::<(), T>(val) && final(self)@ == old(self)@,
    {
        if self.items.len() == N {
            Err(val)
        } else {
            let mut items = Vec::new();
            std::mem::swap(&mut items, &mut self.items);
            items.push(val);
            self.items = items;
            Ok(())
        }
    }

    pub fn push_front(&mut self, val: T) -> (r: Result<(), T>)
        requires
            old(self).wf(),
        ensures
            final(self).wf(),
            old(self)@.len() < N ==> r is Ok && final(self)@ == seq![val] + old(self)@,
            old(self)@.len() == N ==> r == Err::<(), T>(val) && final(self)@ == old(self)@,
    {
        if self.items.len() == N {
            Err(val)
        } else {
            let mut items = Vec::new();
            std::mem::swap(&mut items, &mut self.items);
            items.insert(0, val);
            self.items = items;
            assert(self.items@ =~= seq![val] + old(self)@);
            Ok(())
        }
    }

    pub fn pop_front(&mut self) -> (r: Option<T>)
        requires
            old(self).wf(),
        ensures
            final(self).wf(),
            old(self)@.len() == 0 ==> r is None && final(self)@ == old(self)@,
            old(self)@.len() > 0 ==> r == Some(old(self)@[0]) && final(self)@ == old(self)@.drop_first(),
    {
        if self.items.len() == 0 {
            None
        } else {
            let mut items = Vec::new();
            std::mem::swap(&mut items, &mut self.items);
            let v = items.remove(0);
            self.items = items;
            assert(self.items@ =~= old(self)@.drop_first());
            Some(v)
        }
    }

    pub fn pop_back(&mut self) -> (r: Option<T>)
        requires
            old(self).wf(),
        ensures
            final(self).wf(),
            old(self)@.len() == 0 ==> r is None && final(self)@ == old(self)@,
            old(self)@.len() > 0 ==> r == Some(old(self)@.last()) && final(self)@ == old(self)@.drop_last(),
    {
        let mut items = Vec::new();
        std::mem::swap(&mut items, &mut self.items);
        let r = items.pop();
        self.items = items;
        r
    }
}

} // verus!
