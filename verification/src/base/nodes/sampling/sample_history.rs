use vstd::prelude::*;
use crate::base::common_types::rolling_deque::RollingDeque;
use crate::collections::bounded_deque::Deque;

verus! {

/// The order in which samples are visited.
pub enum Direction {
    DownCounting,
    UpCounting,
}

/// The position of a sample among all samples ever pushed, the first being 0.
#[derive(Clone, Copy, PartialEq, PartialOrd)]
pub struct FullIndex(pub usize);

/// A sample with its position among all samples ever pushed.
pub struct SampleData<T> {
    pub index: FullIndex,
    pub value: T,
}

/// The last `history_size` samples of a value, oldest first, and the number of
/// samples ever pushed.
pub struct SampleHistory<T, const history_size: usize> {
    samples: Deque<T, history_size>,
    full_len: usize,
}

impl<T, const history_size: usize> SampleHistory<T, history_size> {
    /// The samples kept, oldest first.
    pub closed spec fn samples(&self) -> Seq<T> {
        self.samples@
    }

    /// The number of samples ever pushed.
    pub closed spec fn spec_full_len(&self) -> nat {
        self.full_len as nat
    }

    /// At least one sample is kept, no more than `history_size`, and never more
    /// than were pushed. Every history keeps it.
    #[verifier::type_invariant]
    pub open spec fn wf(&self) -> bool {
        &&& self.samples_wf()
        &&& history_size > 0
        &&& self.samples().len() <= history_size
        &&& self.samples().len() <= self.spec_full_len()
    }

    pub closed spec fn samples_wf(&self) -> bool {
        self.samples.wf()
    }

    /// An empty history; a history of no samples is refused.
    pub fn new() -> (h: Self)
        requires
            history_size > 0,
        ensures
            h.wf(),
            h.samples() == Seq::<T>::empty(),
            h.spec_full_len() == 0,
    {
        SampleHistory { samples: Deque::new(), full_len: 0 }
    }

    /// The full index of the oldest sample kept.
    pub fn get_first_full_index(&self) -> (r: FullIndex)
        requires
            self.wf(),
        ensures
            r.0 == self.spec_full_len() - self.samples().len(),
    {
        FullIndex(self.full_len - self.samples.len())
    }

    /// The full index of the newest sample; there must be one.
    pub fn get_last_full_index(&self) -> (r: FullIndex)
        requires
            self.spec_full_len() > 0,
        ensures
            r.0 == self.spec_full_len() - 1,
    {
        FullIndex(self.full_len - 1)
    }

    pub fn full_len(&self) -> (r: usize)
        ensures
            r == self.spec_full_len(),
    {
        self.full_len
    }

    pub fn capacity(&self) -> (r: usize)
        ensures
            r == history_size,
    {
        self.samples.capacity()
    }

    pub fn len(&self) -> (r: usize)
        ensures
            r == self.samples().len(),
    {
        self.samples.len()
    }

    /// The sample at `index`: a positive index counts from the oldest sample kept; an
    /// index of 0 or below gives no sample.
    pub fn get(&self, index: isize) -> (r: Option<SampleData<&T>>)
        requires
            self.wf(),
            self.samples().len() <= isize::MAX / 2,
        ensures
            0 < index < self.samples().len() ==> r == Some(
                SampleData {
                    index: FullIndex((self.spec_full_len() - self.samples().len() + index) as usize),
                    value: &self.samples()[index as int],
                },
            ),
            !(0 < index < self.samples().len()) ==> r is None,
    {
        let len = self.len() as isize;
        if index >= -len && index < len {
            let position = if index > 0 {
                index
            } else {
                len - index
            };
            let u_index = position as usize;
            self.internal_get(u_index)
        } else {
            None
        }
    }

    /// The sample at position `index` from the oldest sample kept.
    pub(crate) fn internal_get(&self, index: usize) -> (r: Option<SampleData<&T>>)
        requires
            self.wf(),
        ensures
            index < self.samples().len() ==> r == Some(
                SampleData {
                    index: FullIndex((self.spec_full_len() - self.samples().len() + index) as usize),
                    value: &self.samples()[index as int],
                },
            ),
            index >= self.samples().len() ==> r is None,
    {
        let sample = match self.samples.get(index) {
            Some(s) => s,
            None => {
                return None;
            },
        };
        let sample_full_index = FullIndex(self.get_first_full_index().0 + index);
        Some(SampleData { index: sample_full_index, value: sample })
    }

    /// Every kept sample with its full index: oldest first when counting down from
    /// the oldest (`DownCounting`), newest first otherwise (`UpCounting`).
    pub fn get_samples(&self, dir: Direction) -> (r: Vec<SampleData<&T>>)
        requires
            self.wf(),
        ensures
            r@.len() == self.samples().len(),
            forall|i: int|
                #![trigger r@[i]]
                0 <= i < r@.len() ==> {
                    let pos = if dir is DownCounting {
                        i
                    } else {
                        self.samples().len() - 1 - i
                    };
                    r@[i] == SampleData {
                        index: FullIndex((self.spec_full_len() - self.samples().len() + pos) as usize),
                        value: &self.samples()[pos],
                    }
                },
    {
        let len = self.len();
        let mut r: Vec<SampleData<&T>> = Vec::new();
        let mut i: usize = 0;
        while i < len
            invariant
                i <= len,
                len == self.samples().len(),
                self.wf(),
                r@.len() == i,
                forall|j: int|
                    #![trigger r@[j]]
                    0 <= j < i ==> {
                        let pos = if dir is DownCounting {
                            j
                        } else {
                            self.samples().len() - 1 - j
                        };
                        r@[j] == SampleData {
                            index: FullIndex((self.spec_full_len() - self.samples().len() + pos) as usize),
                            value: &self.samples()[pos],
                        }
                    },
            decreases len - i,
        {
            let pos = match dir {
                Direction::DownCounting => i,
                Direction::UpCounting => len - 1 - i,
            };
            let sample = self.internal_get(pos).unwrap();
            r.push(sample);
            i = i + 1;
        }
        r
    }

    /// Pushes a new sample; when the history is full, the oldest sample is dropped.
    pub fn push_sample(&mut self, sample: T)
        requires
            old(self).wf(),
            old(self).spec_full_len() < usize::MAX,
        ensures
            final(self).wf(),
            final(self).spec_full_len() == old(self).spec_full_len() + 1,
            old(self).samples().len() == history_size ==> final(self).samples() == old(
                self,
            ).samples().drop_first().push(sample),
            old(self).samples().len() < history_size ==> final(self).samples() == old(
                self,
            ).samples().push(sample),
    {
        let mut samples = Deque::new();
        core::mem::swap(&mut samples, &mut self.samples);
        samples.push_roll_forward(sample);
        self.full_len = self.full_len + 1;
        self.samples = samples;
    }
}

/// After a push, the newest sample is the one pushed, its full index is the number
/// of samples pushed before it, and at most `history_size` samples are kept.
pub proof fn lemma_push_sample_newest<T>(samples: Seq<T>, full_len: nat, history_size: nat, sample: T)
    requires
        samples.len() <= history_size,
        samples.len() <= full_len,
        history_size > 0,
    ensures
        ({
            let after = if samples.len() == history_size {
                samples.drop_first().push(sample)
            } else {
                samples.push(sample)
            };
            &&& after.last() == sample
            &&& after.len() <= history_size
            &&& (full_len + 1) - after.len() + (after.len() - 1) == full_len
        }),
{
}

} // verus!
