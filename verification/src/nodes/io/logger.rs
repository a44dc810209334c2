use core::marker::PhantomData;
use vstd::prelude::*;
use crate::collections::bounded_queue::Queue;
use crate::nodes::signals::activation_signal::ActivationSignal;

verus! {

/// What one turn of a log writer does, with the writer `w`, the pending message
/// `pending` and the queue `queue` before it, and `pending2`, `queue2` after it.
/// Without a pending message nothing happens. A pending message is written; if
/// that fails, it stays pending. Once it is written, the next message of the queue
/// (if there is one) is taken and written, and it stays pending unless that
/// write succeeds.
pub open spec fn log_writer_turn<TWrite: FnMut(&String) -> bool>(
    w: TWrite,
    pending: Option<String>,
    queue: Seq<String>,
    pending2: Option<String>,
    queue2: Seq<String>,
) -> bool {
    match pending {
        None => pending2 == None::<String> && queue2 == queue,
        Some(s) => exists|ok1: bool|
            #![trigger call_ensures(w, (&s,), ok1)]
            call_ensures(w, (&s,), ok1) && if !ok1 {
                pending2 == pending && queue2 == queue
            } else if queue.len() == 0 {
                pending2 == None::<String> && queue2 == queue
            } else {
                &&& queue2 == queue.drop_first()
                &&& exists|ok2: bool|
                    #![trigger call_ensures(w, (&queue[0],), ok2)]
                    call_ensures(w, (&queue[0],), ok2) && pending2 == if ok2 {
                        None::<String>
                    } else {
                        Some(queue[0])
                    }
            },
    }
}

/// Writes the messages of a log queue, one at a time. The writer is a function
/// that writes a string and tells whether it was written.
pub struct LogWriter<TWrite, const msg_queue_size: usize> where TWrite: FnMut(&String) -> bool {
    writer: TWrite,
    current_string: Option<String>,
}

impl<TWrite, const msg_queue_size: usize> LogWriter<TWrite, msg_queue_size> where
    TWrite: FnMut(&String) -> bool,
 {
    pub closed spec fn spec_writer(&self) -> TWrite {
        self.writer
    }

    /// The message taken from the queue and not yet written, if any.
    pub closed spec fn pending(&self) -> Option<String> {
        self.current_string
    }

    /// A writer with no message pending.
    pub fn new(writer: TWrite) -> (w: Self)
        ensures
            w.spec_writer() == writer,
            w.pending() == None::<String>,
    {
        Self { writer, current_string: None }
    }

    /// Writes the pending message; it stays pending unless it was written.
    fn write_string_unchecked(&mut self) -> (has_written: bool)
        requires
            old(self).pending() is Some,
            forall|s: &String| call_requires(old(self).spec_writer(), (s,)),
        ensures
            final(self).spec_writer() == old(self).spec_writer(),
            call_ensures(old(self).spec_writer(), (&old(self).pending().unwrap(),), has_written),
            has_written ==> final(self).pending() == None::<String>,
            !has_written ==> final(self).pending() == old(self).pending(),
    {
        let has_written = match &self.current_string {
            Some(string) => {
                assert(call_requires(old(self).spec_writer(), (string,)));
                (self.writer)(string)
            },
            None => false,
        };
        if has_written {
            self.current_string = None;
        }
        has_written
    }

    /// Takes the next message of the queue as the pending one, if the queue has one.
    fn get_string_unchecked(&mut self, queue: &mut Queue<String, msg_queue_size>) -> (taken: bool)
        requires
            old(queue).wf(),
        ensures
            final(queue).wf(),
            final(self).spec_writer() == old(self).spec_writer(),
            taken == (old(queue)@.len() > 0),
            taken ==> final(self).pending() == Some(old(queue)@[0]) && final(queue)@ == old(queue)@.drop_first(),
            !taken ==> final(self).pending() == old(self).pending() && final(queue)@ == old(queue)@,
    {
        if !queue.is_empty() {
            self.current_string = queue.dequeue();
            true
        } else {
            false
        }
    }

    /// One turn of `log_writer_turn`.
    pub fn resume(&mut self, msg_queue: &mut Queue<String, msg_queue_size>)
        requires
            old(msg_queue).wf(),
            forall|s: &String| call_requires(old(self).spec_writer(), (s,)),
        ensures
            final(msg_queue).wf(),
            final(self).spec_writer() == old(self).spec_writer(),
            log_writer_turn(
                old(self).spec_writer(),
                old(self).pending(),
                old(msg_queue)@,
                final(self).pending(),
                final(msg_queue)@,
            ),
    {
        let can_take_string = if self.current_string.is_some() {
            self.write_string_unchecked()
        } else {
            false
        };
        if can_take_string {
            if self.get_string_unchecked(msg_queue) {
                self.write_string_unchecked();
            }
        }
    }
}

/// Turns a value into a log message whenever the activation signal is raised, and
/// queues it while the queue has room.
pub struct Logger<TValue, TMsgMaker, const msg_queue_size: usize> where TMsgMaker: FnMut(&TValue) -> String {
    msg_maker: TMsgMaker,
    value_phantom: PhantomData<TValue>,
}

impl<TValue, TMsgMaker, const msg_queue_size: usize> Logger<TValue, TMsgMaker, msg_queue_size> where
    TMsgMaker: FnMut(&TValue) -> String,
 {
    pub closed spec fn spec_msg_maker(&self) -> TMsgMaker {
        self.msg_maker
    }

    pub fn new(msg_maker: TMsgMaker) -> (l: Self)
        ensures
            l.spec_msg_maker() == msg_maker,
    {
        Self { msg_maker, value_phantom: PhantomData }
    }

    /// With the signal raised and room in the queue, queues the message made from
    /// `value`; otherwise the queue stays.
    pub fn resume(
        &mut self,
        value: &TValue,
        activation_signal: &ActivationSignal,
        log_queue: &mut Queue<String, msg_queue_size>,
    )
        requires
            old(log_queue).wf(),
            call_requires(old(self).spec_msg_maker(), (value,)),
        ensures
            final(log_queue).wf(),
            final(self).spec_msg_maker() == old(self).spec_msg_maker(),
            activation_signal is Some && old(log_queue)@.len() < Queue::<String, msg_queue_size>::spec_capacity()
                ==> {
                &&& final(log_queue)@.len() == old(log_queue)@.len() + 1
                &&& final(log_queue)@.drop_last() == old(log_queue)@
                &&& call_ensures(old(self).spec_msg_maker(), (value,), final(log_queue)@.last())
            },
            !(activation_signal is Some && old(log_queue)@.len() < Queue::<String, msg_queue_size>::spec_capacity())
                ==> final(log_queue)@ == old(log_queue)@,
    {
        if activation_signal.is_some() && !log_queue.is_full() {
            let new_message = (self.msg_maker)(value);
            let _ = log_queue.enqueue(new_message);
            assert(log_queue@.drop_last() =~= old(log_queue)@);
        }
    }
}

} // verus!
