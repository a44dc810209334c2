use vstd::prelude::*;
use crate::collections::bounded_deque::Deque;

verus! {

/// A bounded deque that makes room for a new item by dropping one at the other end.
pub trait RollingDeque {
    type Element;

    /// The items, front first.
    spec fn items(&self) -> Seq<Self::Element>;

    /// How many items fit.
    spec fn room(&self) -> nat;

    spec fn rolling_wf(&self) -> bool;

    /// Pushes `value` at the back; when the deque is full, the front item is dropped
    /// first and handed back.
    fn push_roll_forward(&mut self, value: Self::Element) -> (r: Option<Self::Element>)
        requires
            old(self).rolling_wf(),
            old(self).room() > 0,
        ensures
            final(self).rolling_wf(),
            final(self).room() == old(self).room(),
            old(self).items().len() == old(self).room() ==> r == Some(old(self).items()[0])
                && final(self).items() == old(self).items().drop_first().push(value),
            old(self).items().len() < old(self).room() ==> r is None && final(self).items() == old(
                self,
            ).items().push(value),
    ;

    /// Pushes `value` at the front; when the deque is full, the back item is dropped
    /// first and handed back.
    fn push_back_dropping(&mut self, value: Self::Element) -> (r: Option<Self::Element>)
        requires
            old(self).rolling_wf(),
            old(self).room() > 0,
        ensures
            final(self).rolling_wf(),
            final(self).room() == old(self).room(),
            old(self).items().len() == old(self).room() ==> r == Some(old(self).items().last())
                && final(self).items() == seq![value] + old(self).items().drop_last(),
            old(self).items().len() < old(self).room() ==> r is None && final(self).items() == seq![value]
                + old(self).items(),
    ;
}

impl<T, const N: usize> RollingDeque for Deque<T, N> {
    type Element = T;

    open spec fn items(&self) -> Seq<T> {
        self@
    }

    open spec fn room(&self) -> nat {
        N as nat
    }

    open spec fn rolling_wf(&self) -> bool {
        self.wf()
    }

    fn push_roll_forward(&mut self, value: T) -> (r: Option<T>) {
        let taken = if self.capacity() == self.len() {
            Some(self.pop_front().unwrap())
        } else {
            None
        };
        let pushed = self.push_back(value);
        if pushed.is_err() {
            assert(false);
        }
        taken
    }

    fn push_back_dropping(&mut self, value: T) -> (r: Option<T>) {
        let taken = if self.capacity() == self.len() {
            Some(self.pop_back().unwrap())
        } else {
            None
        };
        let pushed = self.push_front(value);
        if pushed.is_err() {
            assert(false);
        }
        taken
    }
}

} // verus!
