use vstd::prelude::*;
use crate::collections::bounded_queue::Queue;
use crate::text::{string_push, string_shrink_to_fit};

verus! {

/// How a read of characters ended.
#[derive(Clone, PartialEq, Eq, Structural)]
pub enum ReadFinished {
    LineFinished,
    InputDepleted,
}

/// A character that ends a line.
pub open spec fn is_line_end(c: char) -> bool {
    c == '\n' || c == '\r'
}

/// Reading `input` into a line that holds `buffer`: the characters left, the line,
/// and whether a line end was met (it is consumed and not kept).
pub open spec fn read_line(input: Seq<char>, buffer: Seq<char>) -> (Seq<char>, Seq<char>, ReadFinished)
    decreases input.len(),
{
    if input.len() == 0 {
        (input, buffer, ReadFinished::InputDepleted)
    } else if is_line_end(input[0]) {
        (input.drop_first(), buffer, ReadFinished::LineFinished)
    } else {
        read_line(input.drop_first(), buffer.push(input[0]))
    }
}

/// A finished line consumes at least its end.
pub proof fn lemma_read_line_consumes(input: Seq<char>, buffer: Seq<char>)
    ensures
        read_line(input, buffer).0.len() <= input.len(),
        read_line(input, buffer).2 == ReadFinished::LineFinished ==> read_line(input, buffer).0.len() < input.len(),
    decreases input.len(),
{
    if input.len() > 0 && !is_line_end(input[0]) {
        lemma_read_line_consumes(input.drop_first(), buffer.push(input[0]));
    }
}

/// Reading whole lines from `input` while the output, holding `out_len` lines, has
/// room for `capacity`: the characters left, the unfinished line, and the lines read.
pub open spec fn read_lines(input: Seq<char>, buffer: Seq<char>, out_len: nat, capacity: nat) -> (
    Seq<char>,
    Seq<char>,
    Seq<Seq<char>>,
)
    decreases input.len(),
{
    if out_len >= capacity {
        (input, buffer, Seq::empty())
    } else {
        let (rest, line, finished) = read_line(input, buffer);
        if finished == ReadFinished::LineFinished {
            proof {
                lemma_read_line_consumes(input, buffer);
            }
            let (rest2, buffer2, lines) = read_lines(rest, Seq::empty(), out_len + 1, capacity);
            (rest2, buffer2, seq![line] + lines)
        } else {
            (rest, line, Seq::empty())
        }
    }
}

/// No character of `s` ends a line.
pub open spec fn has_no_line_end(s: Seq<char>) -> bool {
    forall|i: int| 0 <= i < s.len() ==> !is_line_end(#[trigger] s[i])
}

/// Reading a line into a buffer without line ends gives a line without them.
pub proof fn lemma_read_line_no_line_end(input: Seq<char>, buffer: Seq<char>)
    requires
        has_no_line_end(buffer),
    ensures
        has_no_line_end(read_line(input, buffer).1),
    decreases input.len(),
{
    if input.len() > 0 && !is_line_end(input[0]) {
        let next = buffer.push(input[0]);
        assert forall|i: int| 0 <= i < next.len() implies !is_line_end(#[trigger] next[i]) by {
            if i < buffer.len() {
                assert(next[i] == buffer[i]);
            }
        }
        lemma_read_line_no_line_end(input.drop_first(), next);
    }
}

/// The lines cut from a stream hold no line end, and neither does the unfinished
/// line, when the line read so far held none.
pub proof fn lemma_lines_have_no_line_end(input: Seq<char>, buffer: Seq<char>, out_len: nat, capacity: nat)
    requires
        has_no_line_end(buffer),
    ensures
        has_no_line_end(read_lines(input, buffer, out_len, capacity).1),
        forall|k: int|
            0 <= k < read_lines(input, buffer, out_len, capacity).2.len() ==> has_no_line_end(
                #[trigger] read_lines(input, buffer, out_len, capacity).2[k],
            ),
    decreases input.len(),
{
    if out_len < capacity {
        lemma_read_line_no_line_end(input, buffer);
        let (rest, line, finished) = read_line(input, buffer);
        if finished == ReadFinished::LineFinished {
            lemma_read_line_consumes(input, buffer);
            assert(has_no_line_end(Seq::<char>::empty()));
            lemma_lines_have_no_line_end(rest, Seq::empty(), out_len + 1, capacity);
            let lines = read_lines(rest, Seq::empty(), out_len + 1, capacity).2;
            assert forall|k: int| 0 <= k < (seq![line] + lines).len() implies has_no_line_end(
                #[trigger] (seq![line] + lines)[k],
            ) by {
                if k > 0 {
                    assert((seq![line] + lines)[k] == lines[k - 1]);
                }
            }
        }
    }
}

/// The texts of a sequence of strings.
pub open spec fn string_views(s: Seq<String>) -> Seq<Seq<char>> {
    s.map_values(|x: String| x@)
}

/// Cuts a stream of characters into lines.
pub struct LineSeparator<const OUTPUT_BUFFER_SIZE: usize, const INPUT_BUFFER_SIZE: usize> {
    string_buffer: String,
}

impl<const OUTPUT_BUFFER_SIZE: usize, const INPUT_BUFFER_SIZE: usize> View for LineSeparator<
    OUTPUT_BUFFER_SIZE,
    INPUT_BUFFER_SIZE,
> {
    type V = Seq<char>;

    /// The line read so far.
    open spec fn view(&self) -> Seq<char> {
        self.spec_buffer()
    }
}

impl<const OUTPUT_BUFFER_SIZE: usize, const INPUT_BUFFER_SIZE: usize> LineSeparator<
    OUTPUT_BUFFER_SIZE,
    INPUT_BUFFER_SIZE,
> {
    pub closed spec fn spec_buffer(&self) -> Seq<char> {
        self.string_buffer@
    }

    pub fn new() -> (s: Self)
        ensures
            s@ == Seq::<char>::empty(),
    {
        Self { string_buffer: String::new() }
    }

    /// Moves characters from `char_input` into the current line up to a line end.
    pub fn read(&mut self, char_input: &mut Queue<char, INPUT_BUFFER_SIZE>) -> (r: ReadFinished)
        requires
            old(char_input).wf(),
        ensures
            final(char_input).wf(),
            (final(char_input)@, final(self)@, r) == read_line(old(char_input)@, old(self)@),
    {
        loop
            invariant
                char_input.wf(),
                read_line(char_input@, self@) == read_line(old(char_input)@, old(self)@),
            decreases char_input@.len(),
        {
            match char_input.dequeue() {
                Some(new_char) => {
                    if new_char == '\n' || new_char == '\r' {
                        return ReadFinished::LineFinished;
                    } else {
                        string_push(&mut self.string_buffer, new_char);
                    }
                },
                None => {
                    return ReadFinished::InputDepleted;
                },
            }
        }
    }

    /// Moves whole lines from `char_input` to `lines_output` while it has room.
    pub fn read_many(
        &mut self,
        char_input: &mut Queue<char, INPUT_BUFFER_SIZE>,
        lines_output: &mut Queue<String, OUTPUT_BUFFER_SIZE>,
    )
        requires
            old(char_input).wf(),
            old(lines_output).wf(),
        ensures
            final(char_input).wf(),
            final(lines_output).wf(),
            ({
                let (rest, line, lines) = read_lines(
                    old(char_input)@,
                    old(self)@,
                    old(lines_output)@.len(),
                    (OUTPUT_BUFFER_SIZE - 1) as nat,
                );
                &&& final(char_input)@ == rest
                &&& final(self)@ == line
                &&& string_views(final(lines_output)@) == string_views(old(lines_output)@) + lines
            }),
    {
        let ghost cap = (OUTPUT_BUFFER_SIZE - 1) as nat;
        let ghost expected = read_lines(old(char_input)@, old(self)@, old(lines_output)@.len(), cap);
        loop
            invariant
                char_input.wf(),
                lines_output.wf(),
                cap == (OUTPUT_BUFFER_SIZE - 1) as nat,
                expected == read_lines(old(char_input)@, old(self)@, old(lines_output)@.len(), cap),
                ({
                    let (rest, line, lines) = read_lines(char_input@, self@, lines_output@.len(), cap);
                    &&& rest == expected.0
                    &&& line == expected.1
                    &&& string_views(lines_output@) + lines == string_views(old(lines_output)@) + expected.2
                }),
            decreases char_input@.len(),
        {
            let ghost before_input = char_input@;
            let ghost before_buffer = self@;
            let ghost before_lines = lines_output@;
            if lines_output.is_full() {
                proof {
                    assert(read_lines(char_input@, self@, lines_output@.len(), cap) == (
                        char_input@,
                        self@,
                        Seq::<Seq<char>>::empty(),
                    ));
                    assert(string_views(lines_output@) + Seq::<Seq<char>>::empty() =~= string_views(lines_output@));
                }
                return;
            }
            let finished = self.read(char_input);
            if finished != ReadFinished::LineFinished {
                proof {
                    assert(read_lines(before_input, before_buffer, before_lines.len(), cap) == (
                        char_input@,
                        self@,
                        Seq::<Seq<char>>::empty(),
                    ));
                    assert(string_views(lines_output@) + Seq::<Seq<char>>::empty() =~= string_views(lines_output@));
                }
                return;
            }
            proof {
                lemma_read_line_consumes(before_input, before_buffer);
            }
            string_shrink_to_fit(&mut self.string_buffer);
            let mut new_string = String::new();
            std::mem::swap(&mut self.string_buffer, &mut new_string);
            let line = new_string;
            let ghost line_view = line@;
            let enqueued = lines_output.enqueue(line);
            if enqueued.is_err() {
                assert(false);
            }
            proof {
                let (r2, b2, ls2) = read_lines(char_input@, self@, lines_output@.len(), cap);
                assert(self@ == Seq::<char>::empty());
                assert(read_line(before_input, before_buffer) == (char_input@, line_view, ReadFinished::LineFinished));
                assert(read_lines(before_input, before_buffer, before_lines.len(), cap) == (
                    r2,
                    b2,
                    seq![line_view] + ls2,
                ));
                assert(string_views(lines_output@) =~= string_views(before_lines).push(line_view));
                assert(string_views(before_lines) + (seq![line_view] + ls2) =~= string_views(lines_output@) + ls2);
            }
        }
    }

    /// One step of the process: moves whole lines from the characters to the lines.
    pub fn resume(
        &mut self,
        chars_input: &mut Queue<char, INPUT_BUFFER_SIZE>,
        lines_output: &mut Queue<String, OUTPUT_BUFFER_SIZE>,
    )
        requires
            old(chars_input).wf(),
            old(lines_output).wf(),
        ensures
            final(chars_input).wf(),
            final(lines_output).wf(),
            ({
                let (rest, line, lines) = read_lines(
                    old(chars_input)@,
                    old(self)@,
                    old(lines_output)@.len(),
                    (OUTPUT_BUFFER_SIZE - 1) as nat,
                );
                &&& final(chars_input)@ == rest
                &&& final(self)@ == line
                &&& string_views(final(lines_output)@) == string_views(old(lines_output)@) + lines
            }),
    {
        self.read_many(chars_input, lines_output);
    }
}

} // verus!
