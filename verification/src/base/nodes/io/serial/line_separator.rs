use vstd::prelude::*;
use crate::base::nodes::base::node::{refmut_get_mut, Node, NodeBorrowError, NodeRef};
use crate::base::nodes::base::proc::SimpleProcess;
use crate::collections::bounded_deque::Deque;
use crate::text::{string_push, string_shrink_to_fit};

verus! {

/// How a read of characters ended.
#[derive(PartialEq, Eq, Structural)]
pub enum ReadFinished {
    LineFinished,
    InputDepleted,
}

/// A character that ends a line.
pub open spec fn ends_line(c: char) -> bool {
    c == '\n' || c == '\r'
}

/// Reading `input` from its back into a line that holds `buffer`: the characters
/// left, the line, and whether a line end was met (it is consumed and not kept).
pub open spec fn read_line_from_back(input: Seq<char>, buffer: Seq<char>) -> (Seq<char>, Seq<char>, ReadFinished)
    decreases input.len(),
{
    if input.len() == 0 {
        (input, buffer, ReadFinished::InputDepleted)
    } else if ends_line(input.last()) {
        (input.drop_last(), buffer, ReadFinished::LineFinished)
    } else {
        read_line_from_back(input.drop_last(), buffer.push(input.last()))
    }
}

/// A finished line consumes at least its end.
pub proof fn lemma_read_line_from_back_consumes(input: Seq<char>, buffer: Seq<char>)
    ensures
        read_line_from_back(input, buffer).0.len() <= input.len(),
        read_line_from_back(input, buffer).2 == ReadFinished::LineFinished ==> read_line_from_back(
            input,
            buffer,
        ).0.len() < input.len(),
    decreases input.len(),
{
    if input.len() > 0 && !ends_line(input.last()) {
        lemma_read_line_from_back_consumes(input.drop_last(), buffer.push(input.last()));
    }
}

/// Reading whole lines from the back of `input` while the output, holding `out_len`
/// lines, has room for `capacity`: the characters left, the unfinished line, and
/// the lines read as they end up at the front of the output (the last read first).
pub open spec fn read_lines_from_back(input: Seq<char>, buffer: Seq<char>, out_len: nat, capacity: nat) -> (
    Seq<char>,
    Seq<char>,
    Seq<Seq<char>>,
)
    decreases input.len(),
{
    if out_len >= capacity {
        (input, buffer, Seq::empty())
    } else {
        let (rest, line, finished) = read_line_from_back(input, buffer);
        if finished == ReadFinished::LineFinished {
            proof {
                lemma_read_line_from_back_consumes(input, buffer);
            }
            let (rest2, buffer2, front) = read_lines_from_back(rest, Seq::empty(), out_len + 1, capacity);
            (rest2, buffer2, front + seq![line])
        } else {
            (rest, line, Seq::empty())
        }
    }
}

/// The texts of a sequence of strings.
pub open spec fn texts(s: Seq<String>) -> Seq<Seq<char>> {
    s.map_values(|x: String| x@)
}

/// Cuts a stream of characters, taken from the back of a deque, into lines put at
/// the front of another.
#[verifier::reject_recursive_types(output_buffer_size)]
#[verifier::reject_recursive_types(input_buffer_size)]
pub struct LineSeparator<'a, const output_buffer_size: usize, const input_buffer_size: usize> {
    char_input: NodeRef<'a, Deque<char, input_buffer_size>>,
    lines_output: NodeRef<'a, Deque<String, output_buffer_size>>,
    current_string: String,
}

impl<'a, const output_buffer_size: usize, const input_buffer_size: usize> LineSeparator<
    'a,
    output_buffer_size,
    input_buffer_size,
> {
    /// The line read so far.
    pub closed spec fn spec_buffer(&self) -> Seq<char> {
        self.current_string@
    }

    /// A separator from the characters of `char_input` to the lines of
    /// `lines_output`, with no line read yet.
    pub fn new(
        char_input: &'a Node<Deque<char, input_buffer_size>>,
        lines_output: &'a Node<Deque<String, output_buffer_size>>,
    ) -> (s: Self)
        ensures
            s.spec_buffer() == Seq::<char>::empty(),
    {
        Self { char_input: char_input.make_ref(), lines_output: lines_output.make_ref(), current_string: String::new() }
    }

    /// Moves characters from the back of `char_input` into `current_string` up to
    /// a line end.
    pub fn read(char_input: &mut Deque<char, input_buffer_size>, current_string: &mut String) -> (r: ReadFinished)
        requires
            old(char_input).wf(),
        ensures
            final(char_input).wf(),
            (final(char_input)@, final(current_string)@, r) == read_line_from_back(
                old(char_input)@,
                old(current_string)@,
            ),
    {
        loop
            invariant
                char_input.wf(),
                read_line_from_back(char_input@, current_string@) == read_line_from_back(
                    old(char_input)@,
                    old(current_string)@,
                ),
            decreases char_input@.len(),
        {
            match char_input.pop_back() {
                Some(new_char) => {
                    if new_char == '\n' || new_char == '\r' {
                        return ReadFinished::LineFinished;
                    } else {
                        string_push(current_string, new_char);
                    }
                },
                None => {
                    return ReadFinished::InputDepleted;
                },
            }
        }
    }

    /// Moves whole lines from the back of `char_input` to the front of
    /// `lines_output` while it has room.
    pub fn read_many(
        char_input: &mut Deque<char, input_buffer_size>,
        lines_output: &mut Deque<String, output_buffer_size>,
        string_buffer: &mut String,
    )
        requires
            old(char_input).wf(),
            old(lines_output).wf(),
        ensures
            final(char_input).wf(),
            final(lines_output).wf(),
            ({
                let (rest, line, front) = read_lines_from_back(
                    old(char_input)@,
                    old(string_buffer)@,
                    old(lines_output)@.len(),
                    output_buffer_size as nat,
                );
                &&& final(char_input)@ == rest
                &&& final(string_buffer)@ == line
                &&& texts(final(lines_output)@) == front + texts(old(lines_output)@)
            }),
    {
        let ghost cap = output_buffer_size as nat;
        let ghost expected = read_lines_from_back(
            old(char_input)@,
            old(string_buffer)@,
            old(lines_output)@.len(),
            cap,
        );
        loop
            invariant
                char_input.wf(),
                lines_output.wf(),
                cap == output_buffer_size as nat,
                expected == read_lines_from_back(
                    old(char_input)@,
                    old(string_buffer)@,
                    old(lines_output)@.len(),
                    cap,
                ),
                ({
                    let (rest, line, front) = read_lines_from_back(
                        char_input@,
                        string_buffer@,
                        lines_output@.len(),
                        cap,
                    );
                    &&& rest == expected.0
                    &&& line == expected.1
                    &&& front + texts(lines_output@) == expected.2 + texts(old(lines_output)@)
                }),
            decreases char_input@.len(),
        {
            let ghost before_input = char_input@;
            let ghost before_buffer = string_buffer@;
            let ghost before_lines = lines_output@;
            if lines_output.is_full() {
                proof {
                    assert(read_lines_from_back(char_input@, string_buffer@, lines_output@.len(), cap) == (
                        char_input@,
                        string_buffer@,
                        Seq::<Seq<char>>::empty(),
                    ));
                    assert(Seq::<Seq<char>>::empty() + texts(lines_output@) =~= texts(lines_output@));
                }
                return;
            }
            let finished = Self::read(char_input, string_buffer);
            if finished != ReadFinished::LineFinished {
                proof {
                    assert(read_lines_from_back(before_input, before_buffer, before_lines.len(), cap) == (
                        char_input@,
                        string_buffer@,
                        Seq::<Seq<char>>::empty(),
                    ));
                    assert(Seq::<Seq<char>>::empty() + texts(lines_output@) =~= texts(lines_output@));
                }
                return;
            }
            proof {
                lemma_read_line_from_back_consumes(before_input, before_buffer);
            }
            string_shrink_to_fit(string_buffer);
            let mut new_string = String::new();
            std::mem::swap(string_buffer, &mut new_string);
            let ghost line_view = new_string@;
            let pushed = lines_output.push_front(new_string);
            if pushed.is_err() {
                assert(false);
            }
            proof {
                let (r2, b2, f2) = read_lines_from_back(char_input@, string_buffer@, lines_output@.len(), cap);
                assert(string_buffer@ == Seq::<char>::empty());
                assert(read_lines_from_back(before_input, before_buffer, before_lines.len(), cap) == (
                    r2,
                    b2,
                    f2 + seq![line_view],
                ));
                assert(texts(lines_output@) =~= seq![line_view] + texts(before_lines));
                assert((f2 + seq![line_view]) + texts(before_lines) =~= f2 + texts(lines_output@));
            }
        }
    }
}

impl<'a, const output_buffer_size: usize, const input_buffer_size: usize> SimpleProcess for LineSeparator<
    'a,
    output_buffer_size,
    input_buffer_size,
> {
    type TError = NodeBorrowError;

    /// Borrows the character and line nodes and moves whole lines between them
    /// (`read_many`); a refused borrow is the error, and then nothing moves.
    fn next(&mut self) -> (r: Result<(), NodeBorrowError>)
        ensures
            r matches Err(e) ==> e is BorrowMut,
            r is Err ==> final(self).spec_buffer() == old(self).spec_buffer(),
    {
        let mut char_input = match self.char_input.try_borrow_mut() {
            Ok(guard) => guard,
            Err(e) => {
                return Err(NodeBorrowError::BorrowMut(e));
            },
        };
        let mut lines_output = match self.lines_output.try_borrow_mut() {
            Ok(guard) => guard,
            Err(e) => {
                return Err(NodeBorrowError::BorrowMut(e));
            },
        };
        let chars = refmut_get_mut(&mut char_input);
        let lines = refmut_get_mut(&mut lines_output);
        proof {
            use_type_invariant(&*chars);
            use_type_invariant(&*lines);
        }
        Self::read_many(chars, lines, &mut self.current_string);
        Ok(())
    }
}

} // verus!
