use vstd::prelude::*;

verus! {

/// A first-in first-out queue that holds at most `N - 1` items
/// (the capacity of a single producer single consumer ring of `N` slots).
pub struct Queue<T, const N: usize> {
    items: Vec<T>,
}

impl<T, const N: usize> View for Queue<T, N> {
    type V = Seq<T>;

    /// The items of the queue, front first.
    open spec fn view(&self) -> Seq<T> {
        self.spec_items()
    }
}

impl<T, const N: usize> Queue<T, N> {
    pub closed spec fn spec_items(&self) -> Seq<T> {
        self.items@
    }

    /// The number of items the queue can hold.
    pub open spec fn spec_capacity() -> nat {
        (N - 1) as nat
    }

    /// Well-formedness: the ring has at least two slots and the queue is within its
    /// capacity. Every queue keeps it.
    #[verifier::type_invariant]
    pub open spec fn wf(&self) -> bool {
        &&& N > 1
        &&& self@.len() <= Self::spec_capacity()
    }

    /// Creates an empty queue. A ring of fewer than two slots holds nothing and is refused.
    pub fn new() -> (q: Self)
        requires
            N > 1,
        ensures
            q.wf(),
            q@ == Seq::<T>::empty(),
    {
        Queue { items: Vec::new() }
    }

    /// The maximum number of items the queue can hold: `N - 1`.
    pub fn capacity(&self) -> (c: usize)
        requires
            self.wf(),
        ensures
            c == Self::spec_capacity(),
    {
        N - 1
    }

    pub fn len(&self) -> (l: usize)
        ensures
            l == self@.len(),
    {
        self.items.len()
    }

    pub fn is_empty(&self) -> (b: bool)
        ensures
            b == (self@.len() == 0),
    {
        self.items.len() == 0
    }

    pub fn is_full(&self) -> (b: bool)
        requires
            self.wf(),
        ensures
            b == (self@.len() == Self::spec_capacity()),
    {
        self.items.len() == N - 1
    }

    /// Adds an item at the back; hands it back when the queue is full.
    pub fn enqueue(&mut self, val: T) -> (r: Result<(), T>)
        requires
            old(self).wf(),
        ensures
            final(self).wf(),
            old(self)@.len() < Self::spec_capacity() ==> r is Ok && final(self)@ == old(self)@.push(val),
            old(self)@.len() == Self::spec_capacity() ==> r == Err::<(), T>(val) && final(self)@ == old(self)@,
    {
        if self.items.len() == N - 1 {
            Err(val)
        } else {
            let mut items = Vec::new();
            std::mem::swap(&mut items, &mut self.items);
            items.push(val);
            self.items = items;
            Ok(())
        }
    }

    /// Removes the item at the front, if any.
    pub fn dequeue(&mut self) -> (r: Option<T>)
        requires
            old(self).wf(),
        ensures
            final(self).wf(),
            old(self)@.len() == 0 ==> r is None && final(self)@ == old(self)@,
            old(self)@.len() > 0 ==> r == Some(old(self)@[0]) && final(self)@ == old(self)@.drop_first(),
    {
        if self.items.len() == 0 {
            None
        } else {
            let mut items = Vec::new();
            std::mem::swap(&mut items, &mut self.items);
            let v = items.remove(0);
            self.items = items;
            assert(self.items@ =~= old(self)@.drop_first());
            Some(v)
        }
    }

    /// The item at the front, if any.
    pub fn peek(&self) -> (r: Option<&T>)
        ensures
            self@.len() == 0 ==> r is None,
            self@.len() > 0 ==> r == Some(&self@[0]),
    {
        if self.items.len() == 0 {
            None
        } else {
            Some(&self.items[0])
        }
    }
}

} // verus!
