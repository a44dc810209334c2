use vstd::prelude::*;
use crate::collections::index_set::{lemma_swap_remove_distinct, seq_swap_remove};

verus! {

/// An insertion-ordered map of at most `N` entries from index to index. Removal
/// moves the last entry into the place of the removed one.
pub struct IndexMap<const N: usize> {
    entries: Vec<(usize, usize)>,
}

impl<const N: usize> View for IndexMap<N> {
    type V = Seq<(usize, usize)>;

    /// The entries in their current order.
    open spec fn view(&self) -> Seq<(usize, usize)> {
        self.spec_entries()
    }
}

/// The keys of a sequence of entries, in order.
pub open spec fn entry_keys(s: Seq<(usize, usize)>) -> Seq<usize> {
    s.map_values(|e: (usize, usize)| e.0)
}

impl<const N: usize> IndexMap<N> {
    pub closed spec fn spec_entries(&self) -> Seq<(usize, usize)> {
        self.entries@
    }

    pub open spec fn keys(&self) -> Seq<usize> {
        entry_keys(self@)
    }

    /// The map that the entries stand for.
    pub open spec fn to_map(&self) -> Map<usize, usize> {
        Map::new(
            |k: usize| self.keys().contains(k),
            |k: usize| self@[self.keys().index_of(k)].1,
        )
    }

    pub open spec fn wf(&self) -> bool {
        &&& self.keys().no_duplicates()
        &&& self@.len() <= N
    }

    pub fn new() -> (m: Self)
        ensures
            m.wf(),
            m@ == Seq::<(usize, usize)>::empty(),
            m.to_map() == Map::<usize, usize>::empty(),
    {
        let m = IndexMap { entries: Vec::new() };
        assert(m.to_map() =~= Map::<usize, usize>::empty());
        m
    }

    pub fn len(&self) -> (l: usize)
        ensures
            l == self@.len(),
    {
        self.entries.len()
    }

    fn position(&self, key: usize) -> (r: Option<usize>)
        requires
            self.wf(),
        ensures
            r matches Some(i) ==> i < self@.len() && self@[i as int].0 == key
                && self.keys().index_of(key) == i,
            r is None ==> !self.keys().contains(key),
    {
        let mut i: usize = 0;
        while i < self.entries.len()
            invariant
                self.wf(),
                i <= self.entries@.len(),
                forall|j: int| 0 <= j < i ==> self.entries@[j].0 != key,
            decreases self.entries@.len() - i,
        {
            if self.entries[i].0 == key {
                proof {
                    let ks = self.keys();
                    assert(ks[i as int] == key);
                    lemma_index_of_unique(ks, i as int);
                }
                return Some(i);
            }
            i = i + 1;
        }
        proof {
            if self.keys().contains(key) {
                let k = choose|k: int| 0 <= k < self.keys().len() && self.keys()[k] == key;
                assert(self.entries@[k].0 == key);
            }
        }
        None
    }

    /// The value stored for `key`, if any.
    pub fn get(&self, key: usize) -> (r: Option<usize>)
        requires
            self.wf(),
        ensures
            self.to_map().contains_key(key) ==> r == Some(self.to_map()[key]),
            !self.to_map().contains_key(key) ==> r is None,
    {
        match self.position(key) {
            Some(i) => {
                assert(self.keys()[i as int] == key);
                Some(self.entries[i].1)
            },
            None => None,
        }
    }

    pub fn contains_key(&self, key: usize) -> (b: bool)
        requires
            self.wf(),
        ensures
            b == self.to_map().contains_key(key),
    {
        match self.position(key) {
            Some(i) => {
                assert(self.keys()[i as int] == key);
                true
            },
            None => false,
        }
    }

    /// Stores `value` for `key`. Gives back the value it replaces; `Err` when the
    /// key is new and the map is full.
    pub fn insert(&mut self, key: usize, value: usize) -> (r: Result<Option<usize>, (usize, usize)>)
        requires
            old(self).wf(),
        ensures
            final(self).wf(),
            old(self).to_map().contains_key(key) ==> r == Ok::<Option<usize>, (usize, usize)>(
                Some(old(self).to_map()[key]),
            ) && final(self).to_map() == old(self).to_map().insert(key, value)
                && final(self)@.len() == old(self)@.len(),
            !old(self).to_map().contains_key(key) && old(self)@.len() < N ==> r == Ok::<
                Option<usize>,
                (usize, usize),
            >(None) && final(self).to_map() == old(self).to_map().insert(key, value)
                && final(self)@.len() == old(self)@.len() + 1,
            !old(self).to_map().contains_key(key) && old(self)@.len() == N ==> r == Err::<
                Option<usize>,
                (usize, usize),
            >((key, value)) && final(self)@ == old(self)@,
    {
        let ghost old_m = self.to_map();
        match self.position(key) {
            Some(i) => {
                let old_v = self.entries[i].1;
                self.entries.set(i, (key, value));
                proof {
                    let ks = self.keys();
                    assert(ks =~= old(self).keys());
                    assert forall|k: usize| ks.contains(k) implies self.entries@[ks.index_of(k)].1 == (
                    if k == key {
                        value
                    } else {
                        old_m[k]
                    }) by {
                        let j = choose|j: int| 0 <= j < ks.len() && ks[j] == k;
                        lemma_index_of_unique(ks, j);
                    }
                    assert(ks[i as int] == key);
                    assert forall|k: usize| ks.contains(k) <==> old_m.insert(key, value).contains_key(
                        k,
                    ) by {
                        assert(old_m.contains_key(k) <==> old(self).keys().contains(k));
                    }
                    lemma_to_map_ext(*self, old_m.insert(key, value));
                }
                Ok(Some(old_v))
            },
            None => {
                if self.entries.len() == N {
                    Err((key, value))
                } else {
                    self.entries.push((key, value));
                    proof {
                        let ks = self.keys();
                        let oks = old(self).keys();
                        assert(ks =~= oks.push(key));
                        assert forall|a: int, b: int| 0 <= a < b < ks.len() implies ks[a] != ks[b] by {
                            if b == ks.len() - 1 {
                                assert(oks.contains(oks[a]));
                            }
                        }
                        assert forall|k: usize| ks.contains(k) implies ks.index_of(k) == (if k
                            == key { oks.len() as int } else { oks.index_of(k) }) by {
                            if k == key {
                                assert(ks[oks.len() as int] == key);
                                lemma_index_of_unique(ks, oks.len() as int);
                            } else {
                                let j = choose|j: int| 0 <= j < ks.len() && ks[j] == k;
                                assert(j < oks.len());
                                assert(oks[j] == k);
                                lemma_index_of_unique(ks, j);
                                lemma_index_of_unique(oks, j);
                            }
                        }
                        assert forall|k: usize| ks.contains(k) implies self.entries@[ks.index_of(
                            k,
                        )].1 == (if k == key {
                            value
                        } else {
                            old_m[k]
                        }) by {
                            if k != key {
                                let j = choose|j: int| 0 <= j < ks.len() && ks[j] == k;
                                assert(oks[j] == k);
                                assert(oks.contains(k));
                            }
                        }
                        assert forall|k: usize| ks.contains(k) <==> old_m.insert(
                            key,
                            value,
                        ).contains_key(k) by {
                            assert(old_m.contains_key(k) <==> oks.contains(k));
                            if k == key {
                                assert(ks[oks.len() as int] == key);
                            } else if ks.contains(k) {
                                let j = choose|j: int| 0 <= j < ks.len() && ks[j] == k;
                                assert(oks[j] == k);
                            } else if oks.contains(k) {
                                let j = choose|j: int| 0 <= j < oks.len() && oks[j] == k;
                                assert(ks[j] == k);
                            }
                        }
                        lemma_to_map_ext(*self, old_m.insert(key, value));
                    }
                    Ok(None)
                }
            },
        }
    }

    /// Removes `key` and gives back its value. The last entry takes its place.
    pub fn remove(&mut self, key: usize) -> (r: Option<usize>)
        requires
            old(self).wf(),
        ensures
            final(self).wf(),
            old(self).to_map().contains_key(key) ==> r == Some(old(self).to_map()[key])
                && final(self)@.len() == old(self)@.len() - 1,
            !old(self).to_map().contains_key(key) ==> r is None && final(self)@ == old(self)@,
            final(self).to_map() == old(self).to_map().remove(key),
    {
        let ghost old_m = self.to_map();
        match self.position(key) {
            None => {
                assert(self.to_map() =~= old_m.remove(key));
                None
            },
            Some(i) => {
                let v = self.entries[i].1;
                let ghost s = self.entries@;
                let ghost oks = old(self).keys();
                self.entries.swap_remove(i);
                proof {
                    let ks = self.keys();
                    assert(ks =~= seq_swap_remove(oks, i as int));
                    lemma_swap_remove_distinct(oks, i as int);
                    assert forall|k: usize| ks.contains(k) implies self.entries@[ks.index_of(k)].1
                        == old_m[k] by {
                        let p = choose|j: int| 0 <= j < ks.len() && ks[j] == k;
                        lemma_index_of_unique(ks, p);
                        if p == i as int {
                            assert(s[s.len() - 1].0 == k);
                            assert(oks[oks.len() - 1] == k);
                            lemma_index_of_unique(oks, oks.len() - 1);
                        } else {
                            assert(oks[p] == k);
                            lemma_index_of_unique(oks, p);
                        }
                    }
                    assert(self.to_map() =~= old_m.remove(key));
                }
                Some(v)
            },
        }
    }
}

/// The map of the entries equals `m` when they agree on keys and values.
pub proof fn lemma_to_map_ext<const N: usize>(im: IndexMap<N>, m: Map<usize, usize>)
    requires
        forall|k: usize| im.keys().contains(k) <==> m.contains_key(k),
        forall|k: usize| im.keys().contains(k) ==> im@[im.keys().index_of(k)].1 == m[k],
    ensures
        im.to_map() == m,
{
    assert forall|k: usize| im.to_map().contains_key(k) <==> m.contains_key(k) by {}
    assert forall|k: usize| im.to_map().contains_key(k) implies im.to_map()[k] == m[k] by {}
    assert(im.to_map() =~= m);
}

/// In a sequence without duplicates, the element at position `i` is found at `i`.
pub proof fn lemma_index_of_unique<A>(s: Seq<A>, i: int)
    requires
        s.no_duplicates(),
        0 <= i < s.len(),
    ensures
        s.contains(s[i]),
        s.index_of(s[i]) == i,
{
    assert(s.contains(s[i]));
    let j = s.index_of(s[i]);
    assert(s[j] == s[i]);
}

} // verus!
