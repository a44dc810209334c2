use vstd::prelude::*;
use vstd::calc;
use vstd::utf8::encode_utf8;
use crate::collections::bounded_queue::Queue;
use crate::text::string_into_bytes;
use crate::nodes::io::serial::reader::ReadOutcome;

verus! {

/// Turns lines into the bytes of their UTF-8 encoding, as the output has room.
pub struct LineJoiner<const INPUT_BUFFER_SIZE: usize, const OUTPUT_BUFFER_SIZE: usize> {
    current_line: Option<(Vec<u8>, usize)>,
}

impl<const INPUT_BUFFER_SIZE: usize, const OUTPUT_BUFFER_SIZE: usize> View for LineJoiner<
    INPUT_BUFFER_SIZE,
    OUTPUT_BUFFER_SIZE,
> {
    type V = Option<(Seq<u8>, nat)>;

    /// The bytes of the line being sent and how many of them are sent.
    open spec fn view(&self) -> Option<(Seq<u8>, nat)> {
        self.spec_current()
    }
}

/// The bytes of the line to send and how many of them are sent, at the start of a step.
pub open spec fn line_to_send(current: Option<(Seq<u8>, nat)>, input: Seq<String>) -> (Seq<u8>, nat) {
    match current {
        Some(c) => c,
        None => (encode_utf8(input[0]@), 0),
    }
}

/// The bytes of the line being sent that are not sent yet.
pub open spec fn unsent(current: Option<(Seq<u8>, nat)>) -> Seq<u8> {
    match current {
        Some((line, caret)) => line.skip(caret as int),
        None => Seq::empty(),
    }
}

/// The bytes of the line that a step takes from `input`: the first line when no
/// line is being sent, and none otherwise.
pub open spec fn taken_line(current: Option<(Seq<u8>, nat)>, input: Seq<String>) -> Seq<u8> {
    if current is None && input.len() > 0 {
        encode_utf8(input[0]@)
    } else {
        Seq::empty()
    }
}

/// The bytes sent by `line` and `caret + sent` are those of `line` after `caret`.
proof fn lemma_unsent_split(line: Seq<u8>, caret: nat, sent: nat)
    requires
        caret + sent <= line.len(),
    ensures
        line.skip(caret as int) == line.skip(caret as int).take(sent as int) + line.skip((caret + sent) as int),
{
    assert(line.skip(caret as int) =~= line.skip(caret as int).take(sent as int) + line.skip((caret + sent) as int));
}

/// Over any run of steps of a line joiner, the bytes it held unsent at the start and
/// those of the lines it took, in order, are the bytes it sent, in order, and those it
/// holds unsent at the end: no byte is lost, added or reordered. `states` are the
/// joiner's states before and after each step, `taken` the bytes of the line each
/// step took and `sent` the bytes each step put into its output, as `resume` states
/// them step by step.
pub proof fn lemma_joiner_run(states: Seq<Option<(Seq<u8>, nat)>>, taken: Seq<Seq<u8>>, sent: Seq<Seq<u8>>)
    requires
        states.len() == taken.len() + 1,
        sent.len() == taken.len(),
        forall|i: int|
            #![trigger taken[i]]
            0 <= i < taken.len() ==> unsent(states[i]) + taken[i] == sent[i] + unsent(states[i + 1]),
    ensures
        unsent(states[0]) + taken.flatten() == sent.flatten() + unsent(states.last()),
    decreases taken.len(),
{
    if taken.len() == 0 {
        assert(unsent(states[0]) + taken.flatten() =~= unsent(states[0]));
        assert(sent.flatten() + unsent(states.last()) =~= unsent(states[0]));
    } else {
        let rest_states = states.drop_first();
        let rest_taken = taken.drop_first();
        let rest_sent = sent.drop_first();
        assert forall|i: int| #![trigger rest_taken[i]] 0 <= i < rest_taken.len() implies unsent(rest_states[i])
            + rest_taken[i] == rest_sent[i] + unsent(rest_states[i + 1]) by {
            assert(taken[i + 1] == rest_taken[i]);
        }
        lemma_joiner_run(rest_states, rest_taken, rest_sent);
        assert(rest_states.last() == states.last());
        assert(unsent(states[0]) + taken[0] == sent[0] + unsent(states[1]));
        calc! {
            (==)
            unsent(states[0]) + taken.flatten(); {
                assert(unsent(states[0]) + (taken[0] + rest_taken.flatten()) =~= (unsent(states[0]) + taken[0])
                    + rest_taken.flatten());
            }
            (sent[0] + unsent(states[1])) + rest_taken.flatten(); {
                assert((sent[0] + unsent(states[1])) + rest_taken.flatten() =~= sent[0] + (unsent(rest_states[0])
                    + rest_taken.flatten()));
            }
            sent[0] + (rest_sent.flatten() + unsent(states.last())); {
                assert(sent[0] + (rest_sent.flatten() + unsent(states.last())) =~= (sent[0] + rest_sent.flatten())
                    + unsent(states.last()));
            }
            sent.flatten() + unsent(states.last());
        }
    }
}

impl<const INPUT_BUFFER_SIZE: usize, const OUTPUT_BUFFER_SIZE: usize> LineJoiner<
    INPUT_BUFFER_SIZE,
    OUTPUT_BUFFER_SIZE,
> {
    pub closed spec fn spec_current(&self) -> Option<(Seq<u8>, nat)> {
        match self.current_line {
            Some((line, caret)) => Some((line@, caret as nat)),
            None => None,
        }
    }

    /// No byte is sent twice: the count of bytes sent is within the line.
    pub open spec fn wf(&self) -> bool {
        self@ matches Some((line, caret)) ==> caret <= line.len()
    }

    pub fn new() -> (j: Self)
        ensures
            j@ is None,
            j.wf(),
    {
        Self { current_line: None }
    }

    /// One step: takes the next line when none is being sent, then sends as many of
    /// its remaining bytes as the output has room for.
    pub fn resume(
        &mut self,
        input_queue: &mut Queue<String, INPUT_BUFFER_SIZE>,
        output_queue: &mut Queue<u8, OUTPUT_BUFFER_SIZE>,
    )
        requires
            old(self).wf(),
            old(input_queue).wf(),
            old(output_queue).wf(),
        ensures
            final(self).wf(),
            final(input_queue).wf(),
            final(output_queue).wf(),
            unsent(old(self)@) + taken_line(old(self)@, old(input_queue)@) == final(output_queue)@.skip(
                old(output_queue)@.len() as int,
            ) + unsent(final(self)@),
            old(self)@ is None && old(input_queue)@.len() == 0 ==> final(self)@ == old(self)@
                && final(input_queue)@ == old(input_queue)@ && final(output_queue)@ == old(output_queue)@,
            !(old(self)@ is None && old(input_queue)@.len() == 0) ==> ({
                let (line, caret) = line_to_send(old(self)@, old(input_queue)@);
                let remaining = line.skip(caret as int);
                let room = Queue::<u8, OUTPUT_BUFFER_SIZE>::spec_capacity() - old(output_queue)@.len();
                let sent = if remaining.len() <= room { remaining.len() } else { room as nat };
                &&& final(input_queue)@ == if old(self)@ is None {
                    old(input_queue)@.drop_first()
                } else {
                    old(input_queue)@
                }
                &&& final(output_queue)@ == old(output_queue)@ + remaining.take(sent as int)
                &&& final(self)@ == if sent == remaining.len() {
                    None
                } else {
                    Some((line, caret + sent))
                }
            }),
    {
        if self.current_line.is_none() {
            let next_line = match input_queue.dequeue() {
                Some(l) => l,
                None => {
                    return;
                },
            };
            self.current_line = Some((string_into_bytes(next_line), 0));
        }
        let (line, caret) = match self.current_line.take() {
            Some(c) => c,
            None => {
                assert(false);
                return;
            },
        };
        let ghost out0 = output_queue@;
        let mut index: usize = caret;
        let mut words_sent_count: Option<usize> = None;
        while index < line.len()
            invariant_except_break
                caret <= index <= line@.len(),
                output_queue.wf(),
                output_queue@ == out0 + line@.subrange(caret as int, index as int),
                words_sent_count is None,
            ensures
                output_queue.wf(),
                caret <= index <= line@.len(),
                output_queue@ == out0 + line@.subrange(caret as int, index as int),
                words_sent_count is None ==> index == line@.len(),
                words_sent_count matches Some(c) ==> c == index - caret && output_queue@.len()
                    == Queue::<u8, OUTPUT_BUFFER_SIZE>::spec_capacity() && index < line@.len(),
            decreases line@.len() - index,
        {
            let enqueue_res = output_queue.enqueue(line[index]);
            if enqueue_res.is_err() {
                words_sent_count = Some(index - caret);
                break;
            }
            assert(line@.subrange(caret as int, index + 1) =~= line@.subrange(caret as int, index as int).push(
                line@[index as int],
            ));
            index = index + 1;
        }
        proof {
            let remaining = line@.skip(caret as int);
            assert(line@.subrange(caret as int, index as int) =~= remaining.take(index - caret));
            assert(remaining.len() == line@.len() - caret);
            assert(output_queue@.len() == out0.len() + (index - caret));
        }
        match words_sent_count {
            None => {
                self.current_line = None;
            },
            Some(count) => {
                self.current_line = Some((line, caret + count));
            },
        }
        proof {
            lemma_unsent_split(line@, caret as nat, (index - caret) as nat);
            assert(output_queue@.skip(out0.len() as int) =~= line@.subrange(caret as int, index as int));
        }
    }
}

/// What one write of a word to a serial line gave.
pub enum WriteOutcome {
    /// The word was written.
    Written,
    /// The line cannot take a word yet.
    WouldBlock,
}

/// The word that the next write of a queue sends: the one at its front, if any.
pub fn next_word<const N: usize>(queue: &Queue<u8, N>) -> (w: Option<u8>)
    ensures
        queue@.len() == 0 ==> w is None,
        queue@.len() > 0 ==> w == Some(queue@[0]),
{
    match queue.peek() {
        Some(word) => Some(*word),
        None => None,
    }
}

/// Takes in the outcome of writing the word at the front of `queue`: a written
/// word leaves the queue and the writing goes on; a blocked line ends it.
pub fn accept_write<const N: usize>(queue: &mut Queue<u8, N>, outcome: WriteOutcome) -> (go_on: bool)
    requires
        old(queue).wf(),
        old(queue)@.len() > 0,
    ensures
        final(queue).wf(),
        match outcome {
            WriteOutcome::Written => go_on && final(queue)@ == old(queue)@.drop_first(),
            WriteOutcome::WouldBlock => !go_on && final(queue)@ == old(queue)@,
        },
{
    match outcome {
        WriteOutcome::Written => {
            let _ = queue.dequeue();
            true
        },
        WriteOutcome::WouldBlock => false,
    }
}

/// How many reads a turn makes into `queue`: its open space.
pub fn open_space<const N: usize>(queue: &Queue<u8, N>) -> (n: usize)
    requires
        queue.wf(),
    ensures
        n == Queue::<u8, N>::spec_capacity() - queue@.len(),
{
    queue.capacity() - queue.len()
}

/// Takes in the outcome of one read into `queue`: a word is queued and the reading
/// goes on; a blocked line ends it.
pub fn accept_read_word<const N: usize>(queue: &mut Queue<u8, N>, outcome: ReadOutcome) -> (go_on: bool)
    requires
        old(queue).wf(),
        old(queue)@.len() < Queue::<u8, N>::spec_capacity(),
    ensures
        final(queue).wf(),
        match outcome {
            ReadOutcome::Word(w) => go_on && final(queue)@ == old(queue)@.push(w),
            ReadOutcome::WouldBlock => !go_on && final(queue)@ == old(queue)@,
        },
{
    match outcome {
        ReadOutcome::Word(word) => {
            let _ = queue.enqueue(word);
            true
        },
        ReadOutcome::WouldBlock => false,
    }
}

/// Writes the words of a queue to a serial line, front first, until the line
/// blocks. The writes are made by the caller (`next_word`, `accept_write`).
pub struct WriterProc<const input_buffer_size: usize, TWriter> {
    writer: TWriter,
}

impl<const input_buffer_size: usize, TWriter> WriterProc<input_buffer_size, TWriter> {
    pub closed spec fn spec_writer(&self) -> TWriter {
        self.writer
    }

    pub fn new(writer: TWriter) -> (p: Self)
        ensures
            p.spec_writer() == writer,
    {
        Self { writer }
    }

    /// The serial line to write to.
    pub fn writer_mut(&mut self) -> (w: &mut TWriter)
        ensures
            *w == old(self).spec_writer(),
            final(self).spec_writer() == *final(w),
    {
        &mut self.writer
    }
}

/// Reads words from a serial line into one queue and writes the words of another
/// queue to it. The reads and writes are made by the caller (`open_space`,
/// `accept_read_word`, `next_word`, `accept_write`).
pub struct ReaderWriterProc<TReadWrite, const INPUT_BUFFER_SIZE: usize, const OUTPUT_BUFFER_SIZE: usize> {
    rw: TReadWrite,
}

impl<TReadWrite, const INPUT_BUFFER_SIZE: usize, const OUTPUT_BUFFER_SIZE: usize> ReaderWriterProc<
    TReadWrite,
    INPUT_BUFFER_SIZE,
    OUTPUT_BUFFER_SIZE,
> {
    pub closed spec fn spec_rw(&self) -> TReadWrite {
        self.rw
    }

    pub fn new(rw: TReadWrite) -> (p: Self)
        ensures
            p.spec_rw() == rw,
    {
        Self { rw }
    }

    /// The serial line to read from and write to.
    pub fn rw_mut(&mut self) -> (rw: &mut TReadWrite)
        ensures
            *rw == old(self).spec_rw(),
            final(self).spec_rw() == *final(rw),
    {
        &mut self.rw
    }
}

} // verus!
