use vstd::prelude::*;
use crate::nodes::request::request::Request;
use crate::nodes::request::request_queue::{
    RequestIdentifier, RequestQueue, RequestQueueServerEndpoint, spec_get_question, spec_put_answer,
};

verus! {

/// A process that serves the questions of a request queue through a single
/// request slot: it hands the slot the first question of the queue and puts the
/// slot's answer back in the queue.
pub struct Queue2SimpleRequestConverter<TQuest, TAns, const QUEUE_SIZE: usize> {
    queue_server_endpoint: RequestQueueServerEndpoint<TQuest, TAns>,
}

impl<TQuest, TAns, const QUEUE_SIZE: usize> View for Queue2SimpleRequestConverter<TQuest, TAns, QUEUE_SIZE> {
    type V = Option<RequestIdentifier>;

    /// The request of the queue that the slot works on.
    open spec fn view(&self) -> Option<RequestIdentifier> {
        self.spec_current()
    }
}

impl<TQues, TAns, const QUEUE_SIZE: usize> Queue2SimpleRequestConverter<TQues, TAns, QUEUE_SIZE> {
    pub closed spec fn spec_current(&self) -> Option<RequestIdentifier> {
        self.queue_server_endpoint@
    }

    /// A converter that works on no request yet.
    pub fn new() -> (c: Self)
        ensures
            c@ is None,
    {
        Queue2SimpleRequestConverter { queue_server_endpoint: RequestQueueServerEndpoint::new() }
    }

    /// One step: with a request of the queue under way, moves the slot's answer to the
    /// queue; otherwise hands a standing-by slot the first question of the queue.
    pub fn resume(&mut self, queue: &mut RequestQueue<TQues, TAns, QUEUE_SIZE>, simple_req: &mut Request<TQues, TAns>)
        requires
            old(queue).wf(),
            old(self)@ is Some && *old(simple_req) is Answer ==> old(queue)@.requests.contains_key(
                old(self)@->0,
            ) && old(queue)@.requests[old(self)@->0] is Processing,
        ensures
            final(queue).wf(),
            old(self)@ is Some && *old(simple_req) is Answer ==> {
                &&& final(queue)@ == spec_put_answer(old(queue)@, old(self)@, old(simple_req)->Answer_0).0
                &&& *final(simple_req) is StandingBy
                &&& final(self)@ == old(self)@
            },
            old(self)@ is Some && !(*old(simple_req) is Answer) ==> final(queue)@ == old(queue)@
                && *final(simple_req) == *old(simple_req) && final(self)@ == old(self)@,
            old(self)@ is None && *old(simple_req) is StandingBy ==> ({
                let (m, res) = spec_get_question(old(queue)@);
                &&& final(queue)@ == m
                &&& match res {
                    Some((id, q)) => *final(simple_req) == Request::<TQues, TAns>::Question(q) && final(self)@ == Some(id),
                    None => *final(simple_req) == *old(simple_req) && final(self)@ is None,
                }
            }),
            old(self)@ is None && !(*old(simple_req) is StandingBy) ==> final(queue)@ == old(queue)@
                && *final(simple_req) == *old(simple_req) && final(self)@ == old(self)@,
    {
        if self.queue_server_endpoint.has_request() {
            if simple_req.is_answer() {
                let answer = simple_req.take_answer().unwrap();
                let put = self.queue_server_endpoint.put_answer(queue, answer);
                if put.is_err() {
                    assert(false);
                }
            }
        } else {
            if simple_req.is_standing_by() {
                let got = self.queue_server_endpoint.get_question(queue);
                match got {
                    Ok(Some(question)) => {
                        let put = simple_req.put_question(question);
                        if put.is_err() {
                            assert(false);
                        }
                    },
                    Ok(None) => {},
                    Err(_) => {
                        assert(false);
                    },
                }
            }
        }
    }
}

} // verus!
