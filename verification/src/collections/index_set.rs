use vstd::prelude::*;

verus! {

/// An insertion-ordered set of at most `N` indices. Removal moves the last
/// element into the place of the removed one, as `Vec::swap_remove` does.
pub struct IndexSet<const N: usize> {
    items: Vec<usize>,
}

impl<const N: usize> View for IndexSet<N> {
    type V = Seq<usize>;

    /// The elements in their current order.
    open spec fn view(&self) -> Seq<usize> {
        self.spec_items()
    }
}

/// The sequence obtained by removing position `i` with swap-remove.
pub open spec fn seq_swap_remove<A>(s: Seq<A>, i: int) -> Seq<A> {
    s.update(i, s.last()).drop_last()
}

impl<const N: usize> IndexSet<N> {
    pub closed spec fn spec_items(&self) -> Seq<usize> {
        self.items@
    }

    pub open spec fn wf(&self) -> bool {
        &&& self@.no_duplicates()
        &&& self@.len() <= N
    }

    pub fn new() -> (s: Self)
        ensures
            s.wf(),
            s@ == Seq::<usize>::empty(),
    {
        IndexSet { items: Vec::new() }
    }

    pub fn len(&self) -> (l: usize)
        ensures
            l == self@.len(),
    {
        self.items.len()
    }

    pub fn is_empty(&self) -> (b: bool)
        ensures
            b == (self@.len() == 0),
    {
        self.items.len() == 0
    }

    /// The position of `value`, if it is an element.
    pub fn position(&self, value: usize) -> (r: Option<usize>)
        ensures
            r matches Some(i) ==> i < self@.len() && self@[i as int] == value,
            r is None ==> !self@.contains(value),
    {
        let mut i: usize = 0;
        while i < self.items.len()
            invariant
                i <= self.items@.len(),
                forall|j: int| 0 <= j < i ==> self.items@[j] != value,
            decreases self.items@.len() - i,
        {
            if self.items[i] == value {
                return Some(i);
            }
            i = i + 1;
        }
        None
    }

    pub fn contains(&self, value: usize) -> (b: bool)
        ensures
            b == self@.contains(value),
    {
        self.position(value).is_some()
    }

    /// The first element in order, if any.
    pub fn first(&self) -> (r: Option<usize>)
        ensures
            self@.len() == 0 ==> r is None,
            self@.len() > 0 ==> r == Some(self@[0]),
    {
        if self.items.len() == 0 {
            None
        } else {
            Some(self.items[0])
        }
    }

    /// Adds `value` at the end. `Ok(true)` when it was added, `Ok(false)` when it
    /// was already there, `Err(value)` when the set is full.
    pub fn insert(&mut self, value: usize) -> (r: Result<bool, usize>)
        requires
            old(self).wf(),
        ensures
            final(self).wf(),
            old(self)@.contains(value) ==> r == Ok::<bool, usize>(false) && final(self)@ == old(self)@,
            !old(self)@.contains(value) && old(self)@.len() < N ==> r == Ok::<bool, usize>(true)
                && final(self)@ == old(self)@.push(value),
            !old(self)@.contains(value) && old(self)@.len() == N ==> r == Err::<bool, usize>(value)
                && final(self)@ == old(self)@,
    {
        if self.contains(value) {
            Ok(false)
        } else if self.items.len() == N {
            Err(value)
        } else {
            self.items.push(value);
            proof {
                assert forall|a: int, b: int|
                    0 <= a < b < self.items@.len() implies self.items@[a] != self.items@[b] by {
                    if b == self.items@.len() - 1 {
                        assert(old(self)@.contains(old(self)@[a]));
                    }
                }
            }
            Ok(true)
        }
    }

    /// Removes `value`; reports whether it was an element. The last element takes its place.
    pub fn remove(&mut self, value: usize) -> (b: bool)
        requires
            old(self).wf(),
        ensures
            final(self).wf(),
            b == old(self)@.contains(value),
            !b ==> final(self)@ == old(self)@,
            b ==> final(self)@ == seq_swap_remove(old(self)@, old(self)@.index_of(value)),
            final(self)@.to_set() == old(self)@.to_set().remove(value),
    {
        match self.position(value) {
            None => {
                assert(old(self)@.to_set() =~= old(self)@.to_set().remove(value));
                false
            },
            Some(i) => {
                let ghost s = self.items@;
                proof {
                    s.index_of_first_ensures(value);
                    if s.index_of(value) != i as int {
                        assert(s[s.index_of(value)] == s[i as int]);
                    }
                }
                self.items.swap_remove(i);
                proof {
                    lemma_swap_remove_distinct(s, i as int);
                }
                true
            },
        }
    }
}

/// Swap-removing position `i` of a sequence without duplicates leaves a sequence
/// without duplicates that holds exactly the other elements.
pub proof fn lemma_swap_remove_distinct<A>(s: Seq<A>, i: int)
    requires
        s.no_duplicates(),
        0 <= i < s.len(),
    ensures
        seq_swap_remove(s, i).no_duplicates(),
        seq_swap_remove(s, i).len() == s.len() - 1,
        seq_swap_remove(s, i).to_set() == s.to_set().remove(s[i]),
        forall|x: A| seq_swap_remove(s, i).contains(x) <==> (s.contains(x) && x != s[i]),
{
    let t = seq_swap_remove(s, i);
    let n = s.len();
    assert forall|a: int, b: int| 0 <= a < b < t.len() implies t[a] != t[b] by {
        if a == i {
            assert(t[a] == s[n - 1]);
        } else if b == i {
            assert(t[b] == s[n - 1]);
        }
    }
    assert forall|x: A| t.contains(x) <==> (s.contains(x) && x != s[i]) by {
        if t.contains(x) {
            let k = choose|k: int| 0 <= k < t.len() && t[k] == x;
            if k == i {
                assert(s[n - 1] == x);
                assert(n - 1 != i);
            } else {
                assert(s[k] == x);
            }
        }
        if s.contains(x) && x != s[i] {
            let k = choose|k: int| 0 <= k < s.len() && s[k] == x;
            if k == n - 1 {
                assert(t[i] == x);
            } else {
                assert(t[k] == x);
            }
        }
    }
    assert(t.to_set() =~= s.to_set().remove(s[i]));
}

} // verus!
