use vstd::prelude::*;
use vstd::utf8::{
    char_is_scalar, decode_utf8, decode_utf8_encode_utf8, encode_scalar, encode_utf8, encode_utf8_decode_utf8,
    encode_utf8_first_scalar, encode_utf8_valid_utf8, pop_first_scalar, valid_first_scalar,
    valid_leading_and_continuation_bytes_first_codepoint, valid_utf8,
};
use crate::collections::bounded_queue::Queue;
use crate::text::{str_from_utf8, string_into_bytes, string_push};

verus! {

/// The most bytes that the converter keeps for a character it has not finished.
pub const MAX_PENDING_BYTES: usize = 8;

/// One run of the conversion over `input`, with `output` holding the characters
/// written so far and `pending` the bytes taken for the next character, while the
/// output has room for `capacity` characters. Gives the bytes left in the input,
/// the output, and the bytes kept for the next run.
///
/// Each step decodes the pending bytes when they are valid UTF-8 and writes their
/// characters; when they do not all fit, the run stops and keeps the encoding of
/// the characters that did not. Otherwise it takes the next input byte into the
/// pending bytes (after the written ones are dropped). The run ends, keeping
/// nothing, when the input is empty or the output full.
pub open spec fn conversion_run(input: Seq<u8>, output: Seq<char>, pending: Seq<u8>, capacity: nat) -> (
    Seq<u8>,
    Seq<char>,
    Option<Seq<u8>>,
)
    decreases input.len(),
{
    if input.len() == 0 || output.len() >= capacity {
        (input, output, None)
    } else if valid_utf8(pending) && output.len() + decode_utf8(pending).len() > capacity {
        let room = capacity - output.len();
        (
            input,
            output + decode_utf8(pending).take(room),
            Some(encode_utf8(decode_utf8(pending).skip(room))),
        )
    } else if valid_utf8(pending) {
        conversion_run(input.drop_first(), output + decode_utf8(pending), seq![input[0]], capacity)
    } else {
        conversion_run(input.drop_first(), output, pending.push(input[0]), capacity)
    }
}

/// The run of `conversion_run` never takes a byte into pending bytes that already
/// hold `MAX_PENDING_BYTES` bytes (undecodable bytes pile up until then).
pub open spec fn conversion_fits(input: Seq<u8>, output: Seq<char>, pending: Seq<u8>, capacity: nat) -> bool
    decreases input.len(),
{
    if input.len() == 0 || output.len() >= capacity {
        true
    } else if valid_utf8(pending) && output.len() + decode_utf8(pending).len() > capacity {
        true
    } else if valid_utf8(pending) {
        conversion_fits(input.drop_first(), output + decode_utf8(pending), seq![input[0]], capacity)
    } else {
        pending.len() < MAX_PENDING_BYTES && conversion_fits(
            input.drop_first(),
            output,
            pending.push(input[0]),
            capacity,
        )
    }
}

/// The pending bytes a converter starts a run with.
pub open spec fn pending_bytes(kept: Option<Seq<u8>>) -> Seq<u8> {
    match kept {
        Some(b) => b,
        None => Seq::empty(),
    }
}

/// UTF-8 encoding distributes over concatenation.
pub proof fn lemma_encode_utf8_concat(a: Seq<char>, b: Seq<char>)
    ensures
        encode_utf8(a + b) == encode_utf8(a) + encode_utf8(b),
    decreases a.len(),
{
    if a.len() == 0 {
        assert(a + b =~= b);
        assert(encode_utf8(a) + encode_utf8(b) =~= encode_utf8(b));
    } else {
        lemma_encode_utf8_concat(a.drop_first(), b);
        assert((a + b).drop_first() =~= a.drop_first() + b);
        assert((a + b)[0] == a[0]);
        assert(encode_utf8(a + b) =~= encode_utf8(a) + encode_utf8(b));
    }
}

/// The bytes kept for the characters that did not fit are no more than the
/// pending bytes they came from.
proof fn lemma_kept_bytes_len(pending: Seq<u8>, room: int)
    requires
        valid_utf8(pending),
        0 <= room <= decode_utf8(pending).len(),
    ensures
        encode_utf8(decode_utf8(pending).skip(room)).len() <= pending.len(),
{
    let d = decode_utf8(pending);
    assert(d =~= d.take(room) + d.skip(room));
    lemma_encode_utf8_concat(d.take(room), d.skip(room));
    decode_utf8_encode_utf8(pending);
}

/// The characters of ASCII bytes, one for each.
pub open spec fn ascii_text(bytes: Seq<u8>) -> Seq<char> {
    bytes.map_values(|b: u8| b as char)
}

/// An ASCII byte alone is valid UTF-8 and decodes to its character.
proof fn lemma_ascii_byte(b: u8)
    requires
        b < 0x80,
    ensures
        valid_utf8(seq![b]),
        decode_utf8(seq![b]) == seq![b as char],
{
    let s = seq![b];
    assert((b & 0x7f) == b) by (bit_vector)
        requires
            b < 0x80,
    ;
    assert(pop_first_scalar(s) =~= Seq::<u8>::empty());
    assert(valid_utf8(Seq::<u8>::empty()));
    assert(valid_utf8(s));
    assert(decode_utf8(Seq::<u8>::empty()) =~= Seq::<char>::empty());
    assert(decode_utf8(s) =~= seq![b as char]);
}

/// A run over ASCII bytes that takes the byte `b` in first: each byte's character
/// is written once the next byte comes, so the last byte is taken in and not written.
proof fn lemma_ascii_run_pending(input: Seq<u8>, output: Seq<char>, b: u8, capacity: nat)
    requires
        b < 0x80,
        forall|i: int| 0 <= i < input.len() ==> input[i] < 0x80,
        output.len() + input.len() <= capacity,
    ensures
        conversion_fits(input, output, seq![b], capacity),
        conversion_run(input, output, seq![b], capacity) == (
            Seq::<u8>::empty(),
            output + ascii_text((seq![b] + input).drop_last()),
            None::<Seq<u8>>,
        ),
    decreases input.len(),
{
    lemma_ascii_byte(b);
    if input.len() == 0 {
        assert(input =~= Seq::<u8>::empty());
        assert((seq![b] + input).drop_last() =~= Seq::<u8>::empty());
        assert(output + ascii_text(Seq::<u8>::empty()) =~= output);
    } else {
        lemma_ascii_run_pending(input.drop_first(), output + seq![b as char], input[0], capacity);
        assert((seq![b] + input).drop_last() =~= seq![b] + (seq![input[0]] + input.drop_first()).drop_last());
        assert(seq![input[0]] + input.drop_first() =~= input);
        assert(ascii_text(seq![b] + (seq![input[0]] + input.drop_first()).drop_last()) =~= seq![b as char]
            + ascii_text((seq![input[0]] + input.drop_first()).drop_last()));
        assert(output + seq![b as char] + ascii_text((seq![input[0]] + input.drop_first()).drop_last())
            =~= output + ascii_text((seq![b] + input).drop_last()));
    }
}

/// ASCII bytes with room for their characters: a run from no kept bytes takes in
/// every byte and writes the characters of all but the last one, which is dropped
/// with nothing kept; and the run never overfills its pending bytes.
pub proof fn lemma_ascii_conversion(input: Seq<u8>, output: Seq<char>, capacity: nat)
    requires
        input.len() > 0,
        forall|i: int| 0 <= i < input.len() ==> input[i] < 0x80,
        output.len() + input.len() <= capacity,
    ensures
        conversion_fits(input, output, Seq::empty(), capacity),
        conversion_run(input, output, Seq::empty(), capacity) == (
            Seq::<u8>::empty(),
            output + ascii_text(input.drop_last()),
            None::<Seq<u8>>,
        ),
{
    assert(valid_utf8(Seq::<u8>::empty()));
    assert(decode_utf8(Seq::<u8>::empty()) =~= Seq::<char>::empty());
    assert(output + decode_utf8(Seq::<u8>::empty()) =~= output);
    lemma_ascii_run_pending(input.drop_first(), output, input[0], capacity);
    assert(seq![input[0]] + input.drop_first() =~= input);
}

/// The encoding of one character: one to four bytes, valid UTF-8 that decodes to
/// the character, none of whose shorter non-empty prefixes is valid UTF-8.
proof fn lemma_scalar_encoding(c: char)
    ensures
        1 <= encode_scalar(c as u32).len() <= 4,
        valid_utf8(encode_scalar(c as u32)),
        decode_utf8(encode_scalar(c as u32)) == seq![c],
        forall|j: int| 1 <= j < encode_scalar(c as u32).len() ==> !valid_utf8(#[trigger] encode_scalar(c as u32).take(j)),
{
    let e = encode_scalar(c as u32);
    let s = seq![c];
    char_is_scalar(c);
    assert(s.drop_first() =~= Seq::<char>::empty());
    assert(encode_utf8(s) =~= e + encode_utf8(Seq::<char>::empty()));
    assert(encode_utf8(s) =~= e);
    encode_utf8_valid_utf8(s);
    encode_utf8_decode_utf8(s);
    encode_utf8_first_scalar(s);
    assert forall|j: int| 1 <= j < e.len() implies !valid_utf8(#[trigger] e.take(j)) by {
        let p = e.take(j);
        assert(p[0] == e[0]);
        assert(p.len() == j);
        if valid_utf8(p) {
            assert(valid_first_scalar(p));
            assert(valid_leading_and_continuation_bytes_first_codepoint(p));
        }
    }
}

/// A run that has taken the first `j` bytes of the encoding of `c`, with the
/// encodings of the rest of the bytes of `c` and of the characters `rest` still to
/// come: it writes `c` and every character of `rest` but the last, takes in all
/// bytes, and keeps nothing.
proof fn lemma_text_run(c: char, j: int, rest: Seq<char>, output: Seq<char>, capacity: nat)
    requires
        1 <= j <= encode_scalar(c as u32).len(),
        output.len() + 1 + rest.len() <= capacity,
    ensures
        ({
            let input = encode_scalar(c as u32).skip(j) + encode_utf8(rest);
            let pending = encode_scalar(c as u32).take(j);
            &&& conversion_fits(input, output, pending, capacity)
            &&& conversion_run(input, output, pending, capacity) == (
                Seq::<u8>::empty(),
                output + (seq![c] + rest).drop_last(),
                None::<Seq<u8>>,
            )
        }),
    decreases encode_utf8(rest).len() + encode_scalar(c as u32).len() - j,
{
    let e = encode_scalar(c as u32);
    let input = e.skip(j) + encode_utf8(rest);
    let pending = e.take(j);
    lemma_scalar_encoding(c);
    if j < e.len() {
        assert(input[0] == e[j]);
        assert(pending.push(input[0]) =~= e.take(j + 1));
        assert(input.drop_first() =~= e.skip(j + 1) + encode_utf8(rest));
        lemma_text_run(c, j + 1, rest, output, capacity);
    } else {
        assert(pending =~= e);
        assert(e.skip(j) =~= Seq::<u8>::empty());
        if rest.len() == 0 {
            assert(encode_utf8(rest) =~= Seq::<u8>::empty());
            assert(input =~= Seq::<u8>::empty());
            assert((seq![c] + rest).drop_last() =~= Seq::<char>::empty());
            assert(output + Seq::<char>::empty() =~= output);
        } else {
            let c2 = rest[0];
            let e2 = encode_scalar(c2 as u32);
            lemma_scalar_encoding(c2);
            assert(encode_utf8(rest) == e2 + encode_utf8(rest.drop_first()));
            assert(input =~= e2 + encode_utf8(rest.drop_first()));
            assert(input[0] == e2[0]);
            assert(seq![input[0]] =~= e2.take(1));
            assert(input.drop_first() =~= e2.skip(1) + encode_utf8(rest.drop_first()));
            assert(output + decode_utf8(pending) =~= output + seq![c]);
            lemma_text_run(c2, 1, rest.drop_first(), output + seq![c], capacity);
            assert(seq![c2] + rest.drop_first() =~= rest);
            assert((seq![c] + rest).drop_last() =~= seq![c] + (seq![c2] + rest.drop_first()).drop_last());
            assert(output + seq![c] + (seq![c2] + rest.drop_first()).drop_last() =~= output + (seq![c]
                + rest).drop_last());
        }
    }
}

/// Valid UTF-8 text with room for its characters: a run from no kept bytes takes
/// in every byte and writes every character but the last, which is dropped with
/// nothing kept; and the run never overfills its pending bytes.
pub proof fn lemma_text_conversion(text: Seq<char>, output: Seq<char>, capacity: nat)
    requires
        text.len() > 0,
        output.len() + text.len() <= capacity,
    ensures
        conversion_fits(encode_utf8(text), output, Seq::empty(), capacity),
        conversion_run(encode_utf8(text), output, Seq::empty(), capacity) == (
            Seq::<u8>::empty(),
            output + text.drop_last(),
            None::<Seq<u8>>,
        ),
{
    let c = text[0];
    let e = encode_scalar(c as u32);
    let input = encode_utf8(text);
    lemma_scalar_encoding(c);
    assert(input == e + encode_utf8(text.drop_first()));
    assert(valid_utf8(Seq::<u8>::empty()));
    assert(decode_utf8(Seq::<u8>::empty()) =~= Seq::<char>::empty());
    assert(output + decode_utf8(Seq::<u8>::empty()) =~= output);
    assert(input[0] == e[0]);
    assert(seq![input[0]] =~= e.take(1));
    assert(input.drop_first() =~= e.skip(1) + encode_utf8(text.drop_first()));
    lemma_text_run(c, 1, text.drop_first(), output, capacity);
    assert(seq![c] + text.drop_first() =~= text);
}

/// Turns a stream of UTF-8 bytes into characters.
pub struct ByteToCharConverter<const INPUT_QUEUE_SIZE: usize, const OUTPUT_BUFFER_SIZE: usize> {
    current_char: Option<Vec<u8>>,
}

impl<const INPUT_QUEUE_SIZE: usize, const OUTPUT_BUFFER_SIZE: usize> View for ByteToCharConverter<
    INPUT_QUEUE_SIZE,
    OUTPUT_BUFFER_SIZE,
> {
    type V = Option<Seq<u8>>;

    /// The bytes kept from the last run for the next character, if any.
    closed spec fn view(&self) -> Option<Seq<u8>> {
        match self.current_char {
            Some(v) => Some(v@),
            None => None,
        }
    }
}

impl<const INPUT_QUEUE_SIZE: usize, const OUTPUT_BUFFER_SIZE: usize> ByteToCharConverter<
    INPUT_QUEUE_SIZE,
    OUTPUT_BUFFER_SIZE,
> {
    /// The kept bytes fit the buffer of an unfinished character.
    pub open spec fn wf(&self) -> bool {
        self@ matches Some(b) ==> b.len() <= MAX_PENDING_BYTES
    }

    pub fn new() -> (c: Self)
        ensures
            c.wf(),
            c@ == None::<Seq<u8>>,
    {
        Self { current_char: None }
    }

    /// Moves bytes from the input to characters in the output, as far as the
    /// output has room: when the input has bytes and the output room, one run of
    /// `conversion_run` from the kept bytes; otherwise nothing changes.
    pub fn execute_convertion(
        &mut self,
        input_queue: &mut Queue<u8, INPUT_QUEUE_SIZE>,
        output_queue: &mut Queue<char, OUTPUT_BUFFER_SIZE>,
    )
        requires
            old(self).wf(),
            old(input_queue).wf(),
            old(output_queue).wf(),
            old(input_queue)@.len() > 0 && old(output_queue)@.len() < Queue::<char, OUTPUT_BUFFER_SIZE>::spec_capacity()
                ==> conversion_fits(
                old(input_queue)@,
                old(output_queue)@,
                pending_bytes(old(self)@),
                Queue::<char, OUTPUT_BUFFER_SIZE>::spec_capacity(),
            ),
        ensures
            final(self).wf(),
            final(input_queue).wf(),
            final(output_queue).wf(),
            old(input_queue)@.len() > 0 && old(output_queue)@.len() < Queue::<char, OUTPUT_BUFFER_SIZE>::spec_capacity()
                ==> {
                let run = conversion_run(
                    old(input_queue)@,
                    old(output_queue)@,
                    pending_bytes(old(self)@),
                    Queue::<char, OUTPUT_BUFFER_SIZE>::spec_capacity(),
                );
                &&& final(input_queue)@ == run.0
                &&& final(output_queue)@ == run.1
                &&& final(self)@ == run.2
            },
            !(old(input_queue)@.len() > 0 && old(output_queue)@.len() < Queue::<char, OUTPUT_BUFFER_SIZE>::spec_capacity())
                ==> {
                &&& final(input_queue)@ == old(input_queue)@
                &&& final(output_queue)@ == old(output_queue)@
                &&& final(self)@ == old(self)@
            },
    {
        if input_queue.is_empty() || output_queue.is_full() {
            return;
        }
        let ghost capacity = Queue::<char, OUTPUT_BUFFER_SIZE>::spec_capacity();
        let mut current_char: Vec<u8> = match self.current_char.take() {
            Some(bytes) => bytes,
            None => Vec::new(),
        };
        let ghost target = conversion_run(input_queue@, output_queue@, current_char@, capacity);
        loop
            invariant_except_break
                input_queue.wf(),
                output_queue.wf(),
                self@ == None::<Seq<u8>>,
                current_char@.len() <= MAX_PENDING_BYTES,
                conversion_run(input_queue@, output_queue@, current_char@, capacity) == target,
                conversion_fits(input_queue@, output_queue@, current_char@, capacity),
                capacity == Queue::<char, OUTPUT_BUFFER_SIZE>::spec_capacity(),
            ensures
                input_queue.wf(),
                output_queue.wf(),
                self.wf(),
                input_queue@ == target.0,
                output_queue@ == target.1,
                self@ == target.2,
            decreases input_queue@.len(),
        {
            if input_queue.is_empty() || output_queue.is_full() {
                break;
            }
            let ghost mut cleared = false;
            if let Some(current_str) = str_from_utf8(current_char.as_slice()) {
                let char_count = current_str.unicode_len();
                let room = output_queue.capacity() - output_queue.len();
                let ghost out0 = output_queue@;
                let written = if char_count < room { char_count } else { room };
                let mut index: usize = 0;
                while index < written
                    invariant
                        output_queue.wf(),
                        index <= written,
                        written <= char_count,
                        char_count == current_str@.len(),
                        out0.len() + written <= capacity,
                        capacity == Queue::<char, OUTPUT_BUFFER_SIZE>::spec_capacity(),
                        output_queue@ == out0 + current_str@.take(index as int),
                    decreases written - index,
                {
                    let c = current_str.get_char(index);
                    let r = output_queue.enqueue(c);
                    assert(current_str@.take(index + 1) =~= current_str@.take(index as int).push(c));
                    index += 1;
                }
                if written < char_count {
                    let mut rest = String::new();
                    let mut index: usize = written;
                    while index < char_count
                        invariant
                            written <= index <= char_count,
                            char_count == current_str@.len(),
                            rest@ == current_str@.subrange(written as int, index as int),
                        decreases char_count - index,
                    {
                        let c = current_str.get_char(index);
                        string_push(&mut rest, c);
                        assert(current_str@.subrange(written as int, index + 1) =~= current_str@.subrange(
                            written as int,
                            index as int,
                        ).push(c));
                        index += 1;
                    }
                    proof {
                        assert(current_str@.subrange(written as int, char_count as int) =~= current_str@.skip(
                            written as int,
                        ));
                        lemma_kept_bytes_len(current_char@, written as int);
                    }
                    let kept = string_into_bytes(rest);
                    self.current_char = Some(kept);
                    break;
                } else {
                    assert(current_str@.take(index as int) =~= current_str@);
                    current_char = Vec::new();
                    proof {
                        cleared = true;
                    }
                }
            }
            if let Some(byte) = input_queue.dequeue() {
                current_char.push(byte);
                proof {
                    if cleared {
                        assert(current_char@ =~= seq![byte]);
                    }
                }
            } else {
                if current_char.len() > 0 {
                    self.current_char = Some(current_char);
                }
                break;
            }
        }
    }

    /// One turn of the process: `execute_convertion`.
    pub fn resume(
        &mut self,
        input_queue: &mut Queue<u8, INPUT_QUEUE_SIZE>,
        output_queue: &mut Queue<char, OUTPUT_BUFFER_SIZE>,
    )
        requires
            old(self).wf(),
            old(input_queue).wf(),
            old(output_queue).wf(),
            old(input_queue)@.len() > 0 && old(output_queue)@.len() < Queue::<char, OUTPUT_BUFFER_SIZE>::spec_capacity()
                ==> conversion_fits(
                old(input_queue)@,
                old(output_queue)@,
                pending_bytes(old(self)@),
                Queue::<char, OUTPUT_BUFFER_SIZE>::spec_capacity(),
            ),
        ensures
            final(self).wf(),
            final(input_queue).wf(),
            final(output_queue).wf(),
            old(input_queue)@.len() > 0 && old(output_queue)@.len() < Queue::<char, OUTPUT_BUFFER_SIZE>::spec_capacity()
                ==> {
                let run = conversion_run(
                    old(input_queue)@,
                    old(output_queue)@,
                    pending_bytes(old(self)@),
                    Queue::<char, OUTPUT_BUFFER_SIZE>::spec_capacity(),
                );
                &&& final(input_queue)@ == run.0
                &&& final(output_queue)@ == run.1
                &&& final(self)@ == run.2
            },
            !(old(input_queue)@.len() > 0 && old(output_queue)@.len() < Queue::<char, OUTPUT_BUFFER_SIZE>::spec_capacity())
                ==> {
                &&& final(input_queue)@ == old(input_queue)@
                &&& final(output_queue)@ == old(output_queue)@
                &&& final(self)@ == old(self)@
            },
    {
        self.execute_convertion(input_queue, output_queue);
    }
}

/// Turns characters into their UTF-8 bytes.
pub struct CharToByteConverter<const INPUT_BUFFER_SIZE: usize, const OUTPUT_BUFFER_SIZE: usize> {
    current_char: Option<char>,
}

impl<const INPUT_BUFFER_SIZE: usize, const OUTPUT_BUFFER_SIZE: usize> CharToByteConverter<
    INPUT_BUFFER_SIZE,
    OUTPUT_BUFFER_SIZE,
> {
    /// The character held back from the last run, if any.
    pub closed spec fn pending(&self) -> Option<char> {
        self.current_char
    }

    pub fn new() -> (c: Self)
        ensures
            c.pending() == None::<char>,
    {
        Self { current_char: None }
    }
}

/// What one read of a word from a serial line gave.
pub enum ReadOutcome {
    /// A word arrived.
    Word(u8),
    /// No word is there yet.
    WouldBlock,
}

/// Reads words from a serial line into a queue of characters, one character per
/// word. The reads themselves are made by the caller, which hands their outcomes in.
pub struct ReaderProc<Reader, const BUFFER_SIZE: usize> {
    reader: Reader,
}

impl<Reader, const BUFFER_SIZE: usize> ReaderProc<Reader, BUFFER_SIZE> {
    pub closed spec fn spec_reader(&self) -> Reader {
        self.reader
    }

    pub fn new(reader: Reader) -> (p: Self)
        ensures
            p.spec_reader() == reader,
    {
        Self { reader }
    }

    /// The serial line to read from.
    pub fn reader_mut(&mut self) -> (r: &mut Reader)
        ensures
            *r == old(self).spec_reader(),
            final(self).spec_reader() == *final(r),
    {
        &mut self.reader
    }

    /// How many reads one turn makes: the open space of the output, none when it is full.
    pub fn read_budget(output: &Queue<char, BUFFER_SIZE>) -> (n: usize)
        requires
            output.wf(),
        ensures
            n == Queue::<char, BUFFER_SIZE>::spec_capacity() - output@.len(),
    {
        if !output.is_full() {
            output.capacity() - output.len()
        } else {
            0
        }
    }

    /// Takes in the outcome of the read numbered `index` of a turn: a word goes to
    /// the output as the character of the same value; a blocked read ends the turn,
    /// which then counts `index` words.
    pub fn accept_read(output: &mut Queue<char, BUFFER_SIZE>, index: usize, outcome: ReadOutcome) -> (r: Option<
        usize,
    >)
        requires
            old(output).wf(),
            old(output)@.len() < Queue::<char, BUFFER_SIZE>::spec_capacity(),
        ensures
            final(output).wf(),
            match outcome {
                ReadOutcome::Word(w) => r == None::<usize> && final(output)@ == old(output)@.push(w as char),
                ReadOutcome::WouldBlock => r == Some(index) && final(output)@ == old(output)@,
            },
    {
        match outcome {
            ReadOutcome::Word(word) => {
                let _ = output.enqueue(word as char);
                None
            },
            ReadOutcome::WouldBlock => Some(index),
        }
    }
}

} // verus!
