use vstd::prelude::*;
use crate::base::common_types::digital_value::{level_of, DigitalValue};
use crate::base::common_types::timing::Time;
use crate::base::nodes::base::node::{ref_get, NodeBorrowError, NodeRef};
use crate::base::nodes::sampling::sample_history::SampleHistory;

verus! {

/// How many of the levels in `s` are high.
pub open spec fn high_count(s: Seq<DigitalValue>) -> nat
    decreases s.len(),
{
    if s.len() == 0 {
        0
    } else {
        high_count(s.drop_last()) + if s.last() is High {
            1nat
        } else {
            0nat
        }
    }
}

/// A count of high levels is at most the number of levels.
pub proof fn lemma_high_count_bound(s: Seq<DigitalValue>)
    ensures
        high_count(s) <= s.len(),
    decreases s.len(),
{
    if s.len() > 0 {
        lemma_high_count_bound(s.drop_last());
    }
}

/// The number of high levels in `s` is the length of its high levels taken out,
/// and the cleaned level is high exactly when at least `n / 2` of them are high.
pub proof fn lemma_high_count_counts(s: Seq<DigitalValue>, n: nat)
    ensures
        high_count(s) == s.filter(|v: DigitalValue| v == DigitalValue::High).len(),
        level_of(high_count(s) >= n / 2) == DigitalValue::High <==> s.filter(
            |v: DigitalValue| v == DigitalValue::High,
        ).len() >= n / 2,
    decreases s.len(),
{
    reveal(Seq::filter);
    if s.len() > 0 {
        lemma_high_count_counts(s.drop_last(), n);
    }
}

/// The level of a bouncing input, cleaned: high when at least half as many of the
/// kept samples as the history can keep are high, and low otherwise.
pub fn cleaned_level<const history_size: usize>(history: &SampleHistory<DigitalValue, history_size>) -> (v:
    DigitalValue)
    ensures
        v == level_of(high_count(history.samples()) >= history_size / 2),
{
    proof {
        use_type_invariant(history);
    }
    let len = history.len();
    let mut count: usize = 0;
    let mut i: usize = 0;
    while i < len
        invariant
            i <= len,
            len == history.samples().len(),
            history.wf(),
            count == high_count(history.samples().take(i as int)),
        decreases len - i,
    {
        assert(history.samples().take(i + 1).drop_last() == history.samples().take(i as int));
        proof {
            lemma_high_count_bound(history.samples().take(i as int));
        }
        if let Some(sample) = history.internal_get(i) {
            if *sample.value == DigitalValue::High {
                count = count + 1;
            }
        }
        i = i + 1;
    }
    assert(history.samples().take(len as int) == history.samples());
    DigitalValue::from(count >= history_size / 2)
}

/// Cleans the bounces of a digital input: each time new samples come into the
/// history node, the output node gets the cleaned level of the history.
#[verifier::reject_recursive_types(history_size)]
pub struct BounceCleaner<'a, const history_size: usize> {
    samples: NodeRef<'a, SampleHistory<DigitalValue, history_size>>,
    output: NodeRef<'a, DigitalValue>,
    last_sample: usize,
    last_vote: Ghost<Option<(Seq<DigitalValue>, DigitalValue)>>,
    seen_pushed: Ghost<nat>,
}

impl<'a, const history_size: usize> BounceCleaner<'a, history_size> {
    /// The number of samples pushed when the output was last written.
    pub closed spec fn spec_last_sample(&self) -> usize {
        self.last_sample
    }

    /// The kept samples of the history at the last write of the output, and the
    /// level written.
    pub closed spec fn last_vote(&self) -> Option<(Seq<DigitalValue>, DigitalValue)> {
        self.last_vote@
    }

    /// The number of samples ever pushed into the history as the last turn read it.
    pub closed spec fn seen_pushed(&self) -> nat {
        self.seen_pushed@
    }

    pub closed spec fn spec_samples(&self) -> NodeRef<'a, SampleHistory<DigitalValue, history_size>> {
        self.samples
    }

    pub closed spec fn spec_output(&self) -> NodeRef<'a, DigitalValue> {
        self.output
    }

    /// A cleaner that writes `output` from the history in `samples`, once any
    /// sample has been pushed.
    pub fn new(samples: NodeRef<'a, SampleHistory<DigitalValue, history_size>>, output: NodeRef<'a, DigitalValue>) -> (c:
        Self)
        ensures
            c.spec_samples() == samples,
            c.spec_output() == output,
            c.spec_last_sample() == 0,
            c.last_vote() is None,
    {
        Self { samples, output, last_sample: 0, last_vote: Ghost(None), seen_pushed: Ghost(0) }
    }

    /// The number of samples pushed when the output was last written.
    pub fn last_sample(&self) -> (r: usize)
        ensures
            r == self.spec_last_sample(),
    {
        self.last_sample
    }

    /// Borrows the history; when more samples were pushed than at the last write,
    /// writes the cleaned level (`cleaned_level`) to the output and remembers the
    /// number of samples pushed, and the kept samples voted over with the level
    /// written. A refused borrow is the error, and then that
    /// number stays.
    pub fn next(&mut self, _current_time: &Time) -> (r: Result<(), NodeBorrowError>)
        ensures
            r matches Err(e) ==> !(e is BorrowMut),
            r is Err ==> final(self).spec_last_sample() == old(self).spec_last_sample(),
            final(self).spec_last_sample() == old(self).spec_last_sample() ==> final(self).last_vote() == old(
                self,
            ).last_vote(),
            r is Ok ==> final(self).spec_last_sample() == if final(self).seen_pushed() > old(
                self,
            ).spec_last_sample() {
                final(self).seen_pushed()
            } else {
                old(self).spec_last_sample() as nat
            },
            final(self).spec_last_sample() != old(self).spec_last_sample() ==> ({
                &&& r is Ok
                &&& final(self).last_vote() matches Some((kept, level))
                &&& kept.len() <= history_size
                &&& kept.len() <= final(self).spec_last_sample()
                &&& level == level_of(high_count(kept) >= history_size / 2)
            }),
            final(self).spec_last_sample() >= old(self).spec_last_sample(),
            final(self).spec_samples().kernel() == old(self).spec_samples().kernel(),
            final(self).spec_output().kernel() == old(self).spec_output().kernel(),
    {
        let samples_node = self.samples.clone();
        let samples_ref = match samples_node.try_borrow() {
            Ok(guard) => guard,
            Err(e) => {
                return Err(NodeBorrowError::Borrow(e));
            },
        };
        let history = ref_get(&samples_ref);
        let full_len = history.full_len();
        proof {
            self.seen_pushed@ = full_len as nat;
        }
        if full_len > self.last_sample {
            proof {
                use_type_invariant(history);
            }
            let level = cleaned_level(history);
            let ghost kept = history.samples();
            if self.output.try_replace(level).is_err() {
                return Err(NodeBorrowError::Write);
            }
            self.last_sample = full_len;
            proof {
                self.last_vote@ = Some((kept, level));
            }
        }
        Ok(())
    }
}

} // verus!
