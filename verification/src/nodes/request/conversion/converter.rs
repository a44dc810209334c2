use core::marker::PhantomData;
use vstd::prelude::*;
use crate::nodes::request::request::Request;

verus! {

/// What `convert_req` did.
#[derive(PartialEq, Eq, Structural)]
pub enum RequestConversionResult {
    NoConversion,
    ConvertedQuestion,
    ConvertedAnswer,
}

/// Carries requests between a client-side slot (`req_0`) and a server-side slot
/// (`req_1`): a question of the client side goes to the server side when that
/// stands by, and the answer of the server side goes back to the client side when
/// that waits.
pub trait RequestConversion<TQues0, TAnsw0, TQues1, TAnsw1>: Sized {
    /// `q` may be converted.
    spec fn question_convertible(&self, q: TQues0) -> bool;

    /// `a` may be converted.
    spec fn answer_convertible(&self, a: TAnsw1) -> bool;

    /// `r` is a conversion of question `q`.
    spec fn question_converted(&self, q: TQues0, r: TQues1) -> bool;

    /// `r` is a conversion of answer `a`.
    spec fn answer_converted(&self, a: TAnsw1, r: TAnsw0) -> bool;

    /// Converting leaves the conversion as it was.
    spec fn is_stateless(&self) -> bool;

    fn convert_question(&mut self, req: TQues0) -> (r: TQues1)
        requires
            old(self).question_convertible(req),
        ensures
            old(self).question_converted(req, r),
            old(self).is_stateless() ==> *final(self) == *old(self),
    ;

    fn convert_answer(&mut self, ans: TAnsw1) -> (r: TAnsw0)
        requires
            old(self).answer_convertible(ans),
        ensures
            old(self).answer_converted(ans, r),
            old(self).is_stateless() ==> *final(self) == *old(self),
    ;

    /// Moves a question from `req_0` to a standing-by `req_1`, or an answer from
    /// `req_1` to a waiting `req_0`.
    fn convert_req(&mut self, req_0: &mut Request<TQues0, TAnsw0>, req_1: &mut Request<TQues1, TAnsw1>) -> (r:
        RequestConversionResult)
        requires
            forall|q: TQues0|
                *old(req_0) == Request::<TQues0, TAnsw0>::Question(q) && *old(req_1) is StandingBy
                    ==> old(self).question_convertible(q),
            forall|a: TAnsw1|
                *old(req_1) == Request::<TQues1, TAnsw1>::Answer(a) && *old(req_0) is Processing
                    ==> old(self).answer_convertible(a),
        ensures
            (*old(req_0) is Question && *old(req_1) is StandingBy) ==> {
                &&& r == RequestConversionResult::ConvertedQuestion
                &&& *final(req_0) is Processing
                &&& *final(req_1) matches Request::Question(q1)
                &&& old(self).question_converted(old(req_0)->Question_0, final(req_1)->Question_0)
            },
            !(*old(req_0) is Question && *old(req_1) is StandingBy) && *old(req_0) is Processing
                && *old(req_1) is Answer ==> {
                &&& r == RequestConversionResult::ConvertedAnswer
                &&& *final(req_1) is StandingBy
                &&& *final(req_0) matches Request::Answer(a0)
                &&& old(self).answer_converted(old(req_1)->Answer_0, final(req_0)->Answer_0)
            },
            !(*old(req_0) is Question && *old(req_1) is StandingBy) && !(*old(req_0) is Processing
                && *old(req_1) is Answer) ==> r == RequestConversionResult::NoConversion
                && *final(req_0) == *old(req_0) && *final(req_1) == *old(req_1),
            old(self).is_stateless() ==> *final(self) == *old(self),
    {
        if req_0.is_question() && req_1.is_standing_by() {
            self.convert_req_question_unchecked(req_0, req_1);
            RequestConversionResult::ConvertedQuestion
        } else if req_0.is_waiting() && req_1.is_answer() {
            self.convert_req_answer_unchecked(req_1, req_0);
            RequestConversionResult::ConvertedAnswer
        } else {
            RequestConversionResult::NoConversion
        }
    }

    /// Moves the question of `req_0` to `req_1`, whatever `req_1` held.
    fn convert_req_question_unchecked(
        &mut self,
        req_0: &mut Request<TQues0, TAnsw0>,
        req_1: &mut Request<TQues1, TAnsw1>,
    )
        requires
            *old(req_0) is Question,
            old(self).question_convertible(old(req_0)->Question_0),
        ensures
            *final(req_0) is Processing,
            *final(req_1) is Question,
            old(self).question_converted(old(req_0)->Question_0, final(req_1)->Question_0),
            old(self).is_stateless() ==> *final(self) == *old(self),
    {
        let question = req_0.take_question_unchecked();
        let converted = self.convert_question(question);
        req_1.put_question_unchecked(converted);
    }

    /// Moves the answer of `req_1` to `req_0`, whatever `req_0` held.
    fn convert_req_answer_unchecked(
        &mut self,
        req_1: &mut Request<TQues1, TAnsw1>,
        req_0: &mut Request<TQues0, TAnsw0>,
    )
        requires
            *old(req_1) is Answer,
            old(self).answer_convertible(old(req_1)->Answer_0),
        ensures
            *final(req_1) is StandingBy,
            *final(req_0) is Answer,
            old(self).answer_converted(old(req_1)->Answer_0, final(req_0)->Answer_0),
            old(self).is_stateless() ==> *final(self) == *old(self),
    {
        let answer = req_1.take_answer_unchecked();
        let converted = self.convert_answer(answer);
        req_0.put_answer_unchecked(converted);
    }
}

impl<TQues0, TAns0, TQues1, TAns1, TFnQues, TFnAnsw> RequestConversion<TQues0, TAns0, TQues1, TAns1> for (
    TFnQues,
    TFnAnsw,
) where TFnQues: FnMut(TQues0) -> TQues1, TFnAnsw: FnMut(TAns1) -> TAns0 {
    open spec fn question_convertible(&self, q: TQues0) -> bool {
        call_requires(self.0, (q,))
    }

    open spec fn answer_convertible(&self, a: TAns1) -> bool {
        call_requires(self.1, (a,))
    }

    open spec fn question_converted(&self, q: TQues0, r: TQues1) -> bool {
        call_ensures(self.0, (q,), r)
    }

    open spec fn answer_converted(&self, a: TAns1, r: TAns0) -> bool {
        call_ensures(self.1, (a,), r)
    }

    open spec fn is_stateless(&self) -> bool {
        true
    }

    fn convert_question(&mut self, req: TQues0) -> (r: TQues1) {
        (self.0)(req)
    }

    fn convert_answer(&mut self, ans: TAns1) -> (r: TAns0) {
        (self.1)(ans)
    }
}

/// A process that carries requests between two slots with a conversion.
pub struct RequestConverter<TQues0, TAnsw0, TQues1, TAnsw1, TConversion> where
    TConversion: RequestConversion<TQues0, TAnsw0, TQues1, TAnsw1>,
 {
    conversion: TConversion,
    __phantom: PhantomData<(TQues0, TAnsw0, TQues1, TAnsw1)>,
}

impl<TQues0, TAnsw0, TQues1, TAnsw1, TFnQues, TFnAnsw> RequestConverter<
    TQues0,
    TAnsw0,
    TQues1,
    TAnsw1,
    (TFnQues, TFnAnsw),
> where TFnQues: FnMut(TQues0) -> TQues1, TFnAnsw: FnMut(TAnsw1) -> TAnsw0 {
    /// A converter that converts questions with `fn_ques` and answers with `fn_answ`.
    pub fn new_from_fns(fn_ques: TFnQues, fn_answ: TFnAnsw) -> (c: Self)
        ensures
            c.conversion() == (fn_ques, fn_answ),
            c.conversion().is_stateless(),
            forall|q: TQues0| c.conversion().question_convertible(q) <==> call_requires(fn_ques, (q,)),
            forall|a: TAnsw1| c.conversion().answer_convertible(a) <==> call_requires(fn_answ, (a,)),
            forall|q: TQues0, r: TQues1|
                c.conversion().question_converted(q, r) <==> call_ensures(fn_ques, (q,), r),
            forall|a: TAnsw1, r: TAnsw0|
                c.conversion().answer_converted(a, r) <==> call_ensures(fn_answ, (a,), r),
    {
        Self::new((fn_ques, fn_answ))
    }
}

impl<TQues0, TAnsw0, TQues1, TAnsw1, TConversion> RequestConverter<
    TQues0,
    TAnsw0,
    TQues1,
    TAnsw1,
    TConversion,
> where TConversion: RequestConversion<TQues0, TAnsw0, TQues1, TAnsw1> {
    pub closed spec fn conversion(&self) -> TConversion {
        self.conversion
    }

    pub fn new(conversion: TConversion) -> (c: Self)
        ensures
            c.conversion() == conversion,
    {
        Self { conversion, __phantom: PhantomData }
    }

    /// Carries requests between `req_0` and `req_1` once.
    pub fn resume(&mut self, req_0: &mut Request<TQues0, TAnsw0>, req_1: &mut Request<TQues1, TAnsw1>)
        requires
            forall|q: TQues0|
                *old(req_0) == Request::<TQues0, TAnsw0>::Question(q) && *old(req_1) is StandingBy
                    ==> old(self).conversion().question_convertible(q),
            forall|a: TAnsw1|
                *old(req_1) == Request::<TQues1, TAnsw1>::Answer(a) && *old(req_0) is Processing
                    ==> old(self).conversion().answer_convertible(a),
        ensures
            (*old(req_0) is Question && *old(req_1) is StandingBy) ==> {
                &&& *final(req_0) is Processing
                &&& *final(req_1) is Question
                &&& old(self).conversion().question_converted(old(req_0)->Question_0, final(req_1)->Question_0)
            },
            !(*old(req_0) is Question && *old(req_1) is StandingBy) && *old(req_0) is Processing
                && *old(req_1) is Answer ==> {
                &&& *final(req_1) is StandingBy
                &&& *final(req_0) is Answer
                &&& old(self).conversion().answer_converted(old(req_1)->Answer_0, final(req_0)->Answer_0)
            },
            !(*old(req_0) is Question && *old(req_1) is StandingBy) && !(*old(req_0) is Processing
                && *old(req_1) is Answer) ==> *final(req_0) == *old(req_0) && *final(req_1) == *old(req_1),
            old(self).conversion().is_stateless() ==> final(self).conversion() == old(self).conversion(),
    {
        assert(self.conversion == old(self).conversion());
        self.conversion.convert_req(req_0, req_1);
    }
}

} // verus!
