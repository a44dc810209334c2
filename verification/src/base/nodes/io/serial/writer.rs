use vstd::prelude::*;
use crate::base::nodes::base::node::{Node, NodeRef};
use crate::collections::bounded_deque::Deque;

verus! {

/// What one write of a word to a serial line gave.
pub enum WordWritten {
    /// The word was written.
    Written,
    /// The line refused the word.
    Refused,
}

/// Writes the words of a deque to a serial line, from its back, until the line
/// refuses one. The writes are made by the caller (`word_to_write`,
/// `accept_write`), which holds the line.
#[verifier::reject_recursive_types(TWord)]
#[verifier::reject_recursive_types(input_buffer_size)]
pub struct WriterProc<'a, const input_buffer_size: usize, TWord: Clone, TWriter> {
    writer: TWriter,
    input: NodeRef<'a, Deque<TWord, input_buffer_size>>,
}

impl<'a, const input_buffer_size: usize, TWord: Clone, TWriter> WriterProc<'a, input_buffer_size, TWord, TWriter> {
    pub closed spec fn spec_writer(&self) -> TWriter {
        self.writer
    }

    pub closed spec fn spec_input(&self) -> NodeRef<'a, Deque<TWord, input_buffer_size>> {
        self.input
    }

    pub fn new(writer: TWriter, input: &'a Node<Deque<TWord, input_buffer_size>>) -> (p: Self)
        ensures
            p.spec_writer() == writer,
            p.spec_input().kernel() == input,
    {
        Self { writer, input: input.make_ref() }
    }

    /// A reference to the node of the words to write.
    pub fn input_node(&self) -> (r: NodeRef<'a, Deque<TWord, input_buffer_size>>)
        ensures
            r.kernel() == self.spec_input().kernel(),
    {
        self.input.clone()
    }

    /// The serial line to write to.
    pub fn writer_mut(&mut self) -> (w: &mut TWriter)
        ensures
            *w == old(self).spec_writer(),
            final(self).spec_writer() == *final(w),
            final(self).spec_input() == old(self).spec_input(),
    {
        &mut self.writer
    }

    /// The word that the next write sends: a clone of the one at the back, if any.
    pub fn word_to_write(inputs: &Deque<TWord, input_buffer_size>) -> (w: Option<TWord>)
        ensures
            inputs@.len() == 0 ==> w is None,
            inputs@.len() > 0 ==> (w matches Some(x) && cloned(inputs@.last(), x)),
    {
        match inputs.back() {
            Some(word) => Some(word.clone()),
            None => None,
        }
    }

    /// Takes in the outcome of writing the word at the back of `inputs`: a written
    /// word leaves the deque and the writing goes on; a refused one ends it.
    pub fn accept_write(inputs: &mut Deque<TWord, input_buffer_size>, outcome: WordWritten) -> (go_on: bool)
        requires
            old(inputs).wf(),
            old(inputs)@.len() > 0,
        ensures
            final(inputs).wf(),
            match outcome {
                WordWritten::Written => go_on && final(inputs)@ == old(inputs)@.drop_last(),
                WordWritten::Refused => !go_on && final(inputs)@ == old(inputs)@,
            },
    {
        match outcome {
            WordWritten::Written => {
                let _ = inputs.pop_back();
                true
            },
            WordWritten::Refused => false,
        }
    }
}

} // verus!
