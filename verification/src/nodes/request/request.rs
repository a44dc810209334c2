use vstd::prelude::*;

verus! {

/// A request slot between a client and a server. It goes around
/// `StandingBy -> Question -> Processing -> Answer -> StandingBy`.
#[derive(PartialEq, Eq)]
pub enum Request<TReq, TAns> {
    StandingBy,
    Question(TReq),
    Processing,
    Answer(TAns),
}

impl<TReq, TAns> Default for Request<TReq, TAns> {
    /// A slot starts standing by.
    fn default() -> (r: Self)
        ensures
            r == Request::<TReq, TAns>::StandingBy,
    {
        Request::StandingBy
    }
}

/// What `put_question` leaves in the slot and hands back.
pub open spec fn spec_put_question<Q, A>(r: Request<Q, A>, question: Q) -> (Request<Q, A>, Result<(), Q>) {
    if r is StandingBy {
        (Request::Question(question), Ok(()))
    } else {
        (r, Err(question))
    }
}

/// What `take_question` leaves in the slot and hands back.
pub open spec fn spec_take_question<Q, A>(r: Request<Q, A>) -> (Request<Q, A>, Option<Q>) {
    match r {
        Request::Question(q) => (Request::Processing, Some(q)),
        _ => (r, None),
    }
}

/// What `put_answer` leaves in the slot and hands back.
pub open spec fn spec_put_answer<Q, A>(r: Request<Q, A>, answer: A) -> (Request<Q, A>, Result<(), A>) {
    if r is Processing {
        (Request::Answer(answer), Ok(()))
    } else {
        (r, Err(answer))
    }
}

/// What `take_answer` leaves in the slot and hands back.
pub open spec fn spec_take_answer<Q, A>(r: Request<Q, A>) -> (Request<Q, A>, Option<A>) {
    match r {
        Request::Answer(a) => (Request::StandingBy, Some(a)),
        _ => (r, None),
    }
}

impl<TQues, TAns> Request<TQues, TAns> {
    /// Puts a question in the slot whatever it held.
    pub fn put_question_unchecked(&mut self, question: TQues)
        ensures
            *final(self) == Request::<TQues, TAns>::Question(question),
    {
        *self = Request::Question(question);
    }

    pub fn is_standing_by(&self) -> (b: bool)
        ensures
            b == (*self is StandingBy),
    {
        if let Request::StandingBy = self {
            true
        } else {
            false
        }
    }

    /// Puts a question in a slot that stands by; otherwise hands the question back.
    pub fn put_question(&mut self, question: TQues) -> (r: Result<(), TQues>)
        ensures
            (*final(self), r) == spec_put_question(*old(self), question),
    {
        if self.is_standing_by() {
            self.put_question_unchecked(question);
            Ok(())
        } else {
            Err(question)
        }
    }

    pub fn peek_question(&self) -> (r: Option<&TQues>)
        ensures
            match *self {
                Request::Question(q) => r == Some(&q),
                _ => r is None,
            },
    {
        if let Request::Question(question) = self {
            Some(question)
        } else {
            None
        }
    }

    pub fn peek_answer(&self) -> (r: Option<&TAns>)
        ensures
            match *self {
                Request::Answer(a) => r == Some(&a),
                _ => r is None,
            },
    {
        if let Request::Answer(ans) = self {
            Some(ans)
        } else {
            None
        }
    }

    pub fn is_question(&self) -> (b: bool)
        ensures
            b == (*self is Question),
    {
        match self {
            Request::Question(_) => true,
            _ => false,
        }
    }

    pub fn is_waiting(&self) -> (b: bool)
        ensures
            b == (*self is Processing),
    {
        match self {
            Request::Processing => true,
            _ => false,
        }
    }

    /// Takes the question out of the slot, which then waits for the answer.
    pub fn take_question(&mut self) -> (r: Option<TQues>)
        ensures
            (*final(self), r) == spec_take_question(*old(self)),
    {
        if self.is_question() {
            Some(self.take_question_unchecked())
        } else {
            None
        }
    }

    /// Takes the question out of a slot that holds one.
    pub fn take_question_unchecked(&mut self) -> (q: TQues)
        requires
            *old(self) is Question,
        ensures
            (*final(self), Some(q)) == spec_take_question(*old(self)),
    {
        let mut old_value = Request::Processing;
        std::mem::swap(self, &mut old_value);
        let question = match old_value {
            Request::Question(question) => Some(question),
            _ => None,
        };
        question.unwrap()
    }

    /// Takes the answer out of the slot, which then stands by.
    pub fn take_answer(&mut self) -> (r: Option<TAns>)
        ensures
            (*final(self), r) == spec_take_answer(*old(self)),
    {
        if self.is_answer() {
            Some(self.take_answer_unchecked())
        } else {
            None
        }
    }

    /// Takes the answer out of the slot when `predicate` accepts it.
    pub fn take_answer_if<F: FnOnce(&TAns) -> bool>(&mut self, predicate: F) -> (r: Option<TAns>)
        requires
            forall|a: TAns| *old(self) == Request::<TQues, TAns>::Answer(a) ==> call_requires(predicate, (&a,)),
        ensures
            match *old(self) {
                Request::Answer(a) => {
                    ||| (r == Some(a) && *final(self) is StandingBy && call_ensures(predicate, (&a,), true))
                    ||| (r is None && *final(self) == *old(self) && call_ensures(predicate, (&a,), false))
                },
                _ => r is None && *final(self) == *old(self),
            },
    {
        let accepted = match self.peek_answer() {
            Some(ans) => predicate(ans),
            None => false,
        };
        if accepted {
            Some(self.take_answer_unchecked())
        } else {
            None
        }
    }

    /// Takes the answer out of a slot that holds one.
    pub fn take_answer_unchecked(&mut self) -> (a: TAns)
        requires
            *old(self) is Answer,
        ensures
            (*final(self), Some(a)) == spec_take_answer(*old(self)),
    {
        let mut old_value = Request::StandingBy;
        std::mem::swap(self, &mut old_value);
        let answer = match old_value {
            Request::Answer(ans) => Some(ans),
            _ => None,
        };
        answer.unwrap()
    }

    /// Puts the answer in a slot that waits for one; otherwise hands it back.
    pub fn put_answer(&mut self, answer: TAns) -> (r: Result<(), TAns>)
        ensures
            (*final(self), r) == spec_put_answer(*old(self), answer),
    {
        if self.is_waiting() {
            self.put_answer_unchecked(answer);
            Ok(())
        } else {
            Err(answer)
        }
    }

    /// Puts an answer in the slot whatever it held.
    pub fn put_answer_unchecked(&mut self, answer: TAns)
        ensures
            *final(self) == Request::<TQues, TAns>::Answer(answer),
    {
        *self = Request::Answer(answer);
    }

    pub fn is_answer(&self) -> (b: bool)
        ensures
            b == (*self is Answer),
    {
        match self {
            Request::Answer(_) => true,
            _ => false,
        }
    }
}

/// A question put in a standing-by slot comes out of it, the answer put in the
/// waiting slot comes out of it, and the slot stands by again.
pub proof fn lemma_request_round_trip<Q, A>(question: Q, answer: A)
    ensures
        ({
            let (r1, p1) = spec_put_question(Request::<Q, A>::StandingBy, question);
            let (r2, t2) = spec_take_question(r1);
            let (r3, p3) = spec_put_answer(r2, answer);
            let (r4, t4) = spec_take_answer(r3);
            &&& p1 is Ok
            &&& t2 == Some(question)
            &&& p3 is Ok
            &&& t4 == Some(answer)
            &&& r4 is StandingBy
        }),
{
}

/// Only a standing-by slot takes a question, only a waiting slot takes an answer;
/// a refused value comes back unchanged and the slot is left as it was.
pub proof fn lemma_request_refusals<Q, A>(r: Request<Q, A>, question: Q, answer: A)
    ensures
        !(r is StandingBy) ==> spec_put_question(r, question) == (r, Err::<(), Q>(question)),
        !(r is Processing) ==> spec_put_answer(r, answer) == (r, Err::<(), A>(answer)),
        !(r is Question) ==> spec_take_question(r) == (r, None::<Q>),
        !(r is Answer) ==> spec_take_answer(r) == (r, None::<A>),
{
}

} // verus!
