use vstd::prelude::*;

pub mod request_queue;

verus! {

/// A request as the queue reports it: a question, a request being processed, or an answer.
#[derive(PartialEq)]
pub enum Request<TReq, TAns> {
    Question(TReq),
    Processing,
    Answer(TAns),
}

/// Where a request stands, without its content.
pub type RequestSituation = Request<(), ()>;

impl<TReq, TAns> Request<TReq, TAns> {
    pub fn has_answer(&self) -> (b: bool)
        ensures
            b == (*self is Answer),
    {
        match self {
            Request::Question(_) | Request::Processing => false,
            Request::Answer(_) => true,
        }
    }
}

} // verus!
