use vstd::prelude::*;
use crate::base::common_types::timing::{Duration, Time};
use crate::base::nodes::base::node::{ref_get, refmut_get_mut, NodeBorrowError, NodeRef};
use crate::base::nodes::base::time_keeper::{cycles_between, CyclesKeeper};
use crate::base::nodes::sampling::sample_history::{FullIndex, SampleHistory};

verus! {

/// Which kept samples of `history` a log writer that last wrote the sample at full
/// index `last_written` has still to write, oldest first: `Some((first, last))`,
/// where `first` is the position among the kept samples of the oldest of them and
/// `last` the full index of the newest sample, which becomes the last written one;
/// `None` when no kept sample comes after `last_written`.
pub fn unwritten_samples<T, const history_size: usize>(
    history: &SampleHistory<T, history_size>,
    last_written: &FullIndex,
) -> (r: Option<(usize, FullIndex)>)
    ensures
        r is None <==> (history.samples().len() == 0 || history.spec_full_len() <= last_written.0 + 1),
        r matches Some((first, last)) ==> {
            let first_full = history.spec_full_len() - history.samples().len();
            &&& first < history.samples().len()
            &&& first_full + first == if last_written.0 + 1 > first_full {
                last_written.0 + 1
            } else {
                first_full
            }
            &&& last.0 == history.spec_full_len() - 1
        },
{
    proof {
        use_type_invariant(history);
    }
    let len = history.len();
    let full_len = history.full_len();
    if len == 0 || full_len - 1 <= last_written.0 {
        return None;
    }
    let first_full = full_len - len;
    let first = if last_written.0 >= first_full {
        last_written.0 + 1 - first_full
    } else {
        0
    };
    Some((first, FullIndex(full_len - 1)))
}

/// Writes the messages of a history node that it has not written yet, oldest first,
/// with `writer`, and remembers the full index of the last one written.
#[verifier::reject_recursive_types(history_size)]
pub struct LogWriter<'a, TWrite, const history_size: usize> where TWrite: FnMut(&String) {
    msg_queue: NodeRef<'a, SampleHistory<String, history_size>>,
    last_written_index: FullIndex,
    writer: TWrite,
    written: Ghost<Seq<String>>,
    seen: Ghost<Option<(Seq<String>, nat)>>,
}

impl<'a, TWrite: FnMut(&String), const history_size: usize> LogWriter<'a, TWrite, history_size> {
    /// The full index of the last message written.
    pub closed spec fn last_written(&self) -> usize {
        self.last_written_index.0
    }

    pub closed spec fn spec_writer(&self) -> TWrite {
        self.writer
    }

    /// The kept messages and the number of messages ever pushed of the history as
    /// the last turn read it.
    pub closed spec fn seen(&self) -> Option<(Seq<String>, nat)> {
        self.seen@
    }

    /// Every message handed to the writer so far, in the order handed.
    pub closed spec fn written_log(&self) -> Seq<String> {
        self.written@
    }

    pub closed spec fn spec_msg_queue(&self) -> NodeRef<'a, SampleHistory<String, history_size>> {
        self.msg_queue
    }

    /// A writer of the messages of `msg_queue` that come after full index
    /// `last_written_index`.
    pub fn new(
        msg_queue: NodeRef<'a, SampleHistory<String, history_size>>,
        last_written_index: FullIndex,
        writer: TWrite,
    ) -> (w: Self)
        ensures
            w.last_written() == last_written_index.0,
            w.spec_writer() == writer,
            w.spec_msg_queue() == msg_queue,
            w.written_log() == Seq::<String>::empty(),
    {
        Self { msg_queue, last_written_index, writer, written: Ghost(Seq::empty()), seen: Ghost(None) }
    }

    /// The full index of the last message written.
    pub fn last_written_index(&self) -> (r: FullIndex)
        ensures
            r.0 == self.last_written(),
    {
        self.last_written_index
    }

    /// Hands every kept message of `history` that comes after the last one written
    /// to the writer, oldest first (`unwritten_messages`), and then remembers the
    /// newest as the last written; with none to write, nothing changes.
    pub fn try_write_all(&mut self, history: &SampleHistory<String, history_size>)
        requires
            forall|m: &String| call_requires(old(self).spec_writer(), (m,)),
        ensures
            (history.samples().len() == 0 || history.spec_full_len() <= old(self).last_written() + 1)
                ==> final(self).last_written() == old(self).last_written(),
            !(history.samples().len() == 0 || history.spec_full_len() <= old(self).last_written() + 1)
                ==> final(self).last_written() == history.spec_full_len() - 1,
            final(self).spec_msg_queue() == old(self).spec_msg_queue(),
            final(self).seen() == old(self).seen(),
            final(self).written_log() == old(self).written_log() + unwritten_messages(
                history.samples(),
                history.spec_full_len(),
                old(self).last_written() as nat,
            ),
    {
        proof {
            use_type_invariant(history);
        }
        let (first, last) = match unwritten_samples(history, &self.last_written_index) {
            Some(range) => range,
            None => {
                assert(unwritten_messages(history.samples(), history.spec_full_len(), self.last_written() as nat)
                    =~= Seq::<String>::empty());
                return;
            },
        };
        let len = history.len();
        let mut i = first;
        assert(self.writer == old(self).writer);
        assert forall|m: &String| call_requires(self.writer, (m,)) by {
            assert(call_requires(old(self).spec_writer(), (m,)));
        }
        while i < len
            invariant
                first <= i <= len,
                len == history.samples().len(),
                history.wf(),
                self.msg_queue == old(self).msg_queue,
                self.last_written_index == old(self).last_written_index,
                forall|m: &String| call_requires(self.writer, (m,)),
                self.written@ == old(self).written@ + history.samples().subrange(first as int, i as int),
                self.seen == old(self).seen,
            decreases len - i,
        {
            if let Some(sample) = history.internal_get(i) {
                (self.writer)(sample.value);
                proof {
                    self.written@ = self.written@.push(*sample.value);
                    assert(history.samples().subrange(first as int, i + 1) =~= history.samples().subrange(
                        first as int,
                        i as int,
                    ).push(history.samples()[i as int]));
                }
            }
            i = i + 1;
        }
        assert(history.samples().subrange(first as int, len as int) =~= unwritten_messages(
            history.samples(),
            history.spec_full_len(),
            old(self).last_written() as nat,
        ));
        self.last_written_index = last;
    }

    /// Borrows the history node; when it holds a message after the last one
    /// written, borrows it again exclusively and writes (`try_write_all`). A
    /// refused borrow is the error, and then nothing is written.
    pub fn next(&mut self, _current_time: &Time) -> (r: Result<(), NodeBorrowError>)
        requires
            forall|m: &String| call_requires(old(self).spec_writer(), (m,)),
        ensures
            r matches Err(e) ==> !(e is Write),
            r is Err ==> final(self).last_written() == old(self).last_written(),
            r is Err ==> final(self).written_log() == old(self).written_log(),
            r is Ok ==> (final(self).seen() matches Some((kept, full_len)) && kept.len() <= full_len
                && final(self).written_log() == old(self).written_log() + unwritten_messages(
                kept,
                full_len,
                old(self).last_written() as nat,
            )),
            final(self).spec_msg_queue().kernel() == old(self).spec_msg_queue().kernel(),
    {
        let ghost mut kept: Seq<String>;
        let last_index = {
            let queue_ref = match self.msg_queue.try_borrow() {
                Ok(guard) => guard,
                Err(e) => {
                    return Err(NodeBorrowError::Borrow(e));
                },
            };
            let history = ref_get(&queue_ref);
            proof {
                use_type_invariant(history);
                kept = history.samples();
            }
            history.full_len()
        };
        if last_index > 0 && self.last_written_index.0 < last_index - 1 {
            let mut queue_node = self.msg_queue.clone();
            let mut queue_ref = match queue_node.try_borrow_mut() {
                Ok(guard) => guard,
                Err(e) => {
                    return Err(NodeBorrowError::BorrowMut(e));
                },
            };
            let history = refmut_get_mut(&mut queue_ref);
            proof {
                use_type_invariant(&*history);
                self.seen@ = Some((history.samples(), history.spec_full_len()));
                assert forall|m: &String| call_requires(self.spec_writer(), (m,)) by {
                    assert(call_requires(old(self).spec_writer(), (m,)));
                }
            }
            self.try_write_all(history);
        } else {
            proof {
                self.seen@ = Some((kept, last_index as nat));
                assert(unwritten_messages(kept, last_index as nat, self.last_written() as nat) =~= Seq::<
                    String,
                >::empty());
            }
        }
        Ok(())
    }
}

/// The kept messages of a history (`samples`, of `full_len` ever pushed) that come
/// after full index `last_written`, oldest first.
pub open spec fn unwritten_messages(samples: Seq<String>, full_len: nat, last_written: nat) -> Seq<String> {
    let first_full = full_len - samples.len();
    let start = if last_written + 1 > first_full {
        last_written + 1 - first_full
    } else {
        0
    };
    if start >= samples.len() {
        Seq::empty()
    } else {
        samples.skip(start)
    }
}

/// The messages still to write are the kept messages whose full index comes after
/// the last one written, all of them and no other, in the order they were pushed:
/// they end the kept messages, the first of them comes after the last one written,
/// and the kept message just before them does not.
pub proof fn lemma_unwritten_messages(samples: Seq<String>, full_len: nat, last_written: nat)
    requires
        samples.len() <= full_len,
    ensures
        ({
            let r = unwritten_messages(samples, full_len, last_written);
            let first_full = full_len - samples.len();
            &&& r.len() <= samples.len()
            &&& forall|k: int| 0 <= k < r.len() ==> #[trigger] r[k] == samples[samples.len() - r.len() + k]
            &&& r.len() > 0 ==> first_full + (samples.len() - r.len()) > last_written
            &&& r.len() < samples.len() ==> first_full + (samples.len() - r.len()) - 1 <= last_written
        }),
{
}

/// Turns the value of a node into a message once per cycle and pushes it into a
/// history of messages.
#[verifier::reject_recursive_types(TValue)]
#[verifier::reject_recursive_types(history_size)]
pub struct Logger<'a, TValue, TMsgMaker, const history_size: usize> where TMsgMaker: FnMut(&TValue) -> String {
    node: NodeRef<'a, TValue>,
    msg_queue: NodeRef<'a, SampleHistory<String, history_size>>,
    msg_maker: TMsgMaker,
    cycles_keeper: CyclesKeeper,
}

impl<'a, TValue, TMsgMaker: FnMut(&TValue) -> String, const history_size: usize> Logger<'a, TValue, TMsgMaker, history_size> {
    pub closed spec fn keeper(&self) -> CyclesKeeper {
        self.cycles_keeper
    }

    pub closed spec fn spec_msg_maker(&self) -> TMsgMaker {
        self.msg_maker
    }

    pub closed spec fn spec_node(&self) -> NodeRef<'a, TValue> {
        self.node
    }

    pub closed spec fn spec_msg_queue(&self) -> NodeRef<'a, SampleHistory<String, history_size>> {
        self.msg_queue
    }

    /// A logger whose cycles last `cycles_duration` microseconds, the first starting
    /// at time 0.
    pub fn new(
        node: NodeRef<'a, TValue>,
        msg_queue: NodeRef<'a, SampleHistory<String, history_size>>,
        msg_maker: TMsgMaker,
        cycles_duration: Duration,
    ) -> (l: Self)
        ensures
            l.keeper().duration() == cycles_duration,
            l.keeper().start() == 0,
            l.spec_msg_maker() == msg_maker,
            l.spec_node() == node,
            l.spec_msg_queue() == msg_queue,
    {
        let cycles_keeper = CyclesKeeper::new(cycles_duration);
        Self { node, msg_queue, msg_maker, cycles_keeper }
    }

    /// The start of the current cycle.
    pub fn current_cycle_start(&self) -> (r: Time)
        ensures
            r == self.keeper().start(),
    {
        *self.cycles_keeper.get_current_cycle_start_time()
    }

    /// The length of a cycle.
    pub fn cycle_duration(&self) -> (r: Duration)
        ensures
            r == self.keeper().duration(),
    {
        self.cycles_keeper.get_cycle_duration()
    }

    /// A reference to the node whose value is logged.
    pub fn node_ref(&self) -> (r: NodeRef<'a, TValue>)
        ensures
            r.kernel() == self.spec_node().kernel(),
    {
        self.node.clone()
    }

    /// A reference to the node of the history of messages.
    pub fn msg_queue_ref(&self) -> (r: NodeRef<'a, SampleHistory<String, history_size>>)
        ensures
            r.kernel() == self.spec_msg_queue().kernel(),
    {
        self.msg_queue.clone()
    }

    /// Catches the cycles up with `current_time`; tells whether a cycle passed, which
    /// is when a message is due.
    pub fn update_cycles(&mut self, current_time: &Time) -> (should_log: bool)
        requires
            *current_time >= old(self).keeper().start(),
            old(self).keeper().duration() > 0,
        ensures
            should_log == (cycles_between(old(self).keeper().start(), old(self).keeper().duration(), *current_time)
                % 0x1_0000_0000 > 0),
            final(self).keeper().start() <= *current_time,
            final(self).keeper().duration() == old(self).keeper().duration(),
            final(self).spec_msg_maker() == old(self).spec_msg_maker(),
    {
        self.cycles_keeper.get_cycles_and_update(current_time) > 0
    }

    /// Pushes the message made from `value` into the history.
    pub fn log(&mut self, value: &TValue, msg_queue: &mut SampleHistory<String, history_size>)
        requires
            call_requires(old(self).spec_msg_maker(), (value,)),
            old(msg_queue).spec_full_len() < usize::MAX,
        ensures
            final(msg_queue).spec_full_len() == old(msg_queue).spec_full_len() + 1,
            final(self).keeper() == old(self).keeper(),
            ({
                let msg = final(msg_queue).samples().last();
                &&& call_ensures(old(self).spec_msg_maker(), (value,), msg)
                &&& final(msg_queue).samples() == if old(msg_queue).samples().len() == history_size {
                    old(msg_queue).samples().drop_first().push(msg)
                } else {
                    old(msg_queue).samples().push(msg)
                }
            }),
    {
        proof {
            use_type_invariant(&*msg_queue);
        }
        let msg = (self.msg_maker)(value);
        msg_queue.push_sample(msg);
    }
}

} // verus!
