use vstd::prelude::*;
use vstd::std_specs::cmp::PartialEqSpec;
use crate::base::common_types::timing::Time;
use crate::base::nodes::base::node::{ref_get, refmut_put, NodeBorrowError, NodeRef};

verus! {

/// Writes `func` of the input node to the output node at every step.
#[verifier::reject_recursive_types(TInput)]
#[verifier::reject_recursive_types(TOutput)]
pub struct UnaryFunc<'a, TInput, TOutput, TFunc: FnMut(&TInput) -> TOutput> {
    pub output: NodeRef<'a, TOutput>,
    pub input: NodeRef<'a, TInput>,
    pub func: TFunc,
}

impl<'a, TInput, TOutput, TFunc: FnMut(&TInput) -> TOutput> UnaryFunc<'a, TInput, TOutput, TFunc> {
    /// The value to write for the input value `input`: `func` of it.
    pub fn compute(&mut self, input: &TInput) -> (out: TOutput)
        requires
            call_requires(old(self).func, (input,)),
        ensures
            call_ensures(old(self).func, (input,), out),
            final(self).input == old(self).input,
            final(self).output == old(self).output,
    {
        (self.func)(input)
    }

    /// Borrows the input, then the output, and writes `func` of the input to the
    /// output; a refused borrow is the error, and then `func` is not called and
    /// nothing is written.
    pub fn next(&mut self, _current_time: &Time) -> (r: Result<(), NodeBorrowError>)
        requires
            forall|x: &TInput| call_requires(old(self).func, (x,)),
        ensures
            r matches Err(e) ==> !(e is Write),
            r is Err ==> final(self).func == old(self).func,
            final(self).input.kernel() == old(self).input.kernel(),
            final(self).output.kernel() == old(self).output.kernel(),
    {
        let input_node = self.input.clone();
        let input_ref = match input_node.try_borrow() {
            Ok(guard) => guard,
            Err(e) => {
                return Err(NodeBorrowError::Borrow(e));
            },
        };
        let mut output_node = self.output.clone();
        let mut output_ref = match output_node.try_borrow_mut() {
            Ok(guard) => guard,
            Err(e) => {
                return Err(NodeBorrowError::BorrowMut(e));
            },
        };
        let input_value = ref_get(&input_ref);
        assert(call_requires(old(self).func, (input_value,)));
        let new_output = self.compute(input_value);
        let _ = refmut_put(&mut output_ref, new_output);
        Ok(())
    }
}

/// Writes `func` of the two input nodes to the output node at every step.
#[verifier::reject_recursive_types(TInput1)]
#[verifier::reject_recursive_types(TInput2)]
#[verifier::reject_recursive_types(TOutput)]
pub struct BinaryFunc<'a, TInput1, TInput2, TOutput, TFunc: FnMut(&TInput1, &TInput2) -> TOutput> {
    pub output: NodeRef<'a, TOutput>,
    pub input_1: NodeRef<'a, TInput1>,
    pub input_2: NodeRef<'a, TInput2>,
    pub func: TFunc,
}

impl<'a, TInput1, TInput2, TOutput, TFunc: FnMut(&TInput1, &TInput2) -> TOutput> BinaryFunc<
    'a,
    TInput1,
    TInput2,
    TOutput,
    TFunc,
> {
    /// The value to write for the input values `input_1` and `input_2`: `func` of
    /// them, in that order.
    pub fn compute(&mut self, input_1: &TInput1, input_2: &TInput2) -> (out: TOutput)
        requires
            call_requires(old(self).func, (input_1, input_2)),
        ensures
            call_ensures(old(self).func, (input_1, input_2), out),
            final(self).input_1 == old(self).input_1,
            final(self).input_2 == old(self).input_2,
            final(self).output == old(self).output,
    {
        (self.func)(input_1, input_2)
    }

    /// Borrows the inputs, then the output, and writes `func` of the inputs to the
    /// output; a refused borrow is the error, and then `func` is not called and
    /// nothing is written.
    pub fn next(&mut self, _current_time: &Time) -> (r: Result<(), NodeBorrowError>)
        requires
            forall|x: &TInput1, y: &TInput2| call_requires(old(self).func, (x, y)),
        ensures
            r matches Err(e) ==> !(e is Write),
            r is Err ==> final(self).func == old(self).func,
            final(self).input_1.kernel() == old(self).input_1.kernel(),
            final(self).input_2.kernel() == old(self).input_2.kernel(),
            final(self).output.kernel() == old(self).output.kernel(),
    {
        let input_1_node = self.input_1.clone();
        let input_1_ref = match input_1_node.try_borrow() {
            Ok(guard) => guard,
            Err(e) => {
                return Err(NodeBorrowError::Borrow(e));
            },
        };
        let input_2_node = self.input_2.clone();
        let input_2_ref = match input_2_node.try_borrow() {
            Ok(guard) => guard,
            Err(e) => {
                return Err(NodeBorrowError::Borrow(e));
            },
        };
        let mut output_node = self.output.clone();
        let mut output_ref = match output_node.try_borrow_mut() {
            Ok(guard) => guard,
            Err(e) => {
                return Err(NodeBorrowError::BorrowMut(e));
            },
        };
        let input_1 = ref_get(&input_1_ref);
        let input_2 = ref_get(&input_2_ref);
        assert(call_requires(old(self).func, (input_1, input_2)));
        let new_output = self.compute(input_1, input_2);
        let _ = refmut_put(&mut output_ref, new_output);
        Ok(())
    }
}

/// Whether a function of a cached input must run again: always without a cache,
/// otherwise when the input differs from it.
pub fn input_changed<T: PartialEq>(cache: &Option<T>, input: &T) -> (r: bool)
    ensures
        cache is None ==> r,
        cache matches Some(c) ==> (T::obeys_eq_spec() ==> r == !input.eq_spec(c)),
{
    match cache {
        None => true,
        Some(cache_value) => !input.eq(cache_value),
    }
}

/// Like `UnaryFunc`, for a function without side effects: runs only when the input
/// differs from the one its output was last written for.
#[verifier::reject_recursive_types(TInput)]
#[verifier::reject_recursive_types(TOutput)]
pub struct PureUnaryFunc<'a, TInput, TOutput, TFunc> where
    TInput: PartialEq + Clone,
    TFunc: Fn(&TInput) -> TOutput,
 {
    pub input: NodeRef<'a, TInput>,
    pub output: NodeRef<'a, TOutput>,
    pub func: TFunc,
    input_cache: Option<TInput>,
}

impl<'a, TInput: PartialEq + Clone, TOutput, TFunc: Fn(&TInput) -> TOutput> PureUnaryFunc<
    'a,
    TInput,
    TOutput,
    TFunc,
> {
    /// The input the output was last written for, if any.
    pub closed spec fn cache(&self) -> Option<TInput> {
        self.input_cache
    }

    pub closed spec fn spec_input(&self) -> NodeRef<'a, TInput> {
        self.input
    }

    pub closed spec fn spec_output(&self) -> NodeRef<'a, TOutput> {
        self.output
    }

    pub closed spec fn spec_func(&self) -> TFunc {
        self.func
    }

    pub fn new(input: NodeRef<'a, TInput>, output: NodeRef<'a, TOutput>, func: TFunc) -> (p: Self)
        ensures
            p.spec_input() == input,
            p.spec_output() == output,
            p.spec_func() == func,
            p.cache() == None::<TInput>,
    {
        Self { input, output, func, input_cache: None }
    }

    /// The turn for the input value `input`: `func` of it, when it differs from the
    /// cached input or nothing is cached; nothing otherwise.
    pub fn turn(&self, input: &TInput) -> (out: Option<TOutput>)
        requires
            call_requires(self.spec_func(), (input,)),
        ensures
            self.cache() is None ==> out is Some,
            self.cache() matches Some(c) ==> (TInput::obeys_eq_spec() ==> (out is Some <==> !input.eq_spec(&c))),
            out matches Some(o) ==> call_ensures(self.spec_func(), (input,), o),
    {
        if input_changed(&self.input_cache, input) {
            Some((self.func)(input))
        } else {
            None
        }
    }

    /// Caches a clone of `input`, the input whose output was written.
    pub fn record(&mut self, input: &TInput)
        ensures
            final(self).cache() matches Some(c) && cloned(*input, c),
            final(self).spec_input() == old(self).spec_input(),
            final(self).spec_output() == old(self).spec_output(),
            final(self).spec_func() == old(self).spec_func(),
    {
        let c = input.clone();
        assert(cloned(*input, c));
        self.input_cache = Some(c);
    }

    /// Borrows the input; when it differs from the cached input (or there is none),
    /// writes `func` of it to the output and, once written, caches a clone of it.
    /// A refused borrow of the input is the error; a refused write leaves the cache.
    pub fn next(&mut self, _input: &Time) -> (r: Result<(), NodeBorrowError>)
        requires
            forall|x: &TInput| call_requires(old(self).spec_func(), (x,)),
        ensures
            r matches Err(e) ==> e is Borrow,
            final(self).spec_input().kernel() == old(self).spec_input().kernel(),
            final(self).spec_output().kernel() == old(self).spec_output().kernel(),
            r is Err ==> final(self).cache() == old(self).cache(),
            final(self).cache() != old(self).cache() ==> final(self).cache() is Some,
    {
        let input_node = self.input.clone();
        let input_value_ref = match input_node.try_borrow() {
            Ok(guard) => guard,
            Err(e) => {
                return Err(NodeBorrowError::Borrow(e));
            },
        };
        let input_value = ref_get(&input_value_ref);
        assert(call_requires(old(self).spec_func(), (input_value,)));
        if let Some(new_output) = self.turn(input_value) {
            if self.output.try_replace(new_output).is_ok() {
                self.record(input_value);
            }
        }
        Ok(())
    }
}

/// Like `BinaryFunc`, for a function without side effects: runs only when an input
/// differs from the one its output was last written for.
#[verifier::reject_recursive_types(TInput1)]
#[verifier::reject_recursive_types(TInput2)]
#[verifier::reject_recursive_types(TOutput)]
pub struct PureBinaryFunc<'a, TInput1, TInput2, TOutput, TFunc> where
    TInput1: PartialEq + Clone,
    TInput2: PartialEq + Clone,
    TFunc: Fn(&TInput1, &TInput2) -> TOutput,
 {
    pub input_1: NodeRef<'a, TInput1>,
    pub input_2: NodeRef<'a, TInput2>,
    pub output: NodeRef<'a, TOutput>,
    pub func: TFunc,
    input_cache: Option<(TInput1, TInput2)>,
}

impl<'a, TInput1, TInput2, TOutput, TFunc> PureBinaryFunc<'a, TInput1, TInput2, TOutput, TFunc> where
    TInput1: PartialEq + Clone,
    TInput2: PartialEq + Clone,
    TFunc: Fn(&TInput1, &TInput2) -> TOutput,
 {
    /// The inputs the output was last written for, if any.
    pub closed spec fn cache(&self) -> Option<(TInput1, TInput2)> {
        self.input_cache
    }

    pub closed spec fn spec_input_1(&self) -> NodeRef<'a, TInput1> {
        self.input_1
    }

    pub closed spec fn spec_input_2(&self) -> NodeRef<'a, TInput2> {
        self.input_2
    }

    pub closed spec fn spec_output(&self) -> NodeRef<'a, TOutput> {
        self.output
    }

    pub closed spec fn spec_func(&self) -> TFunc {
        self.func
    }

    pub fn new(
        input_1: NodeRef<'a, TInput1>,
        input_2: NodeRef<'a, TInput2>,
        output: NodeRef<'a, TOutput>,
        func: TFunc,
    ) -> (p: Self)
        ensures
            p.spec_input_1() == input_1,
            p.spec_input_2() == input_2,
            p.spec_output() == output,
            p.spec_func() == func,
            p.cache() == None::<(TInput1, TInput2)>,
    {
        Self { input_1, input_2, output, func, input_cache: None }
    }

    /// The turn for the input values `input_1`, `input_2`: `func` of them, when one
    /// differs from the cached inputs or nothing is cached; nothing otherwise.
    pub fn turn(&self, input_1: &TInput1, input_2: &TInput2) -> (out: Option<TOutput>)
        requires
            call_requires(self.spec_func(), (input_1, input_2)),
        ensures
            self.cache() is None ==> out is Some,
            self.cache() matches Some((c1, c2)) ==> (TInput1::obeys_eq_spec() && TInput2::obeys_eq_spec() ==> (
            out is Some <==> (!c1.eq_spec(input_1) || !c2.eq_spec(input_2)))),
            out matches Some(o) ==> call_ensures(self.spec_func(), (input_1, input_2), o),
    {
        let should_update = match &self.input_cache {
            None => true,
            Some((cache_1, cache_2)) => !cache_1.eq(input_1) || !cache_2.eq(input_2),
        };
        if should_update {
            Some((self.func)(input_1, input_2))
        } else {
            None
        }
    }

    /// Caches clones of `input_1` and `input_2`, the inputs whose output was written.
    pub fn record(&mut self, input_1: &TInput1, input_2: &TInput2)
        ensures
            final(self).cache() matches Some((c1, c2)) && cloned(*input_1, c1) && cloned(*input_2, c2),
            final(self).spec_input_1() == old(self).spec_input_1(),
            final(self).spec_input_2() == old(self).spec_input_2(),
            final(self).spec_output() == old(self).spec_output(),
            final(self).spec_func() == old(self).spec_func(),
    {
        let c1 = input_1.clone();
        let c2 = input_2.clone();
        assert(cloned(*input_1, c1) && cloned(*input_2, c2));
        self.input_cache = Some((c1, c2));
    }

    /// Borrows the inputs; when one differs from the cached inputs (or there are
    /// none), writes `func` of them to the output and, once written, caches clones
    /// of them. A refused borrow of an input is the error; a refused write leaves
    /// the cache.
    pub fn next(&mut self, _input: &Time) -> (r: Result<(), NodeBorrowError>)
        requires
            forall|x: &TInput1, y: &TInput2| call_requires(old(self).spec_func(), (x, y)),
        ensures
            r matches Err(e) ==> e is Borrow,
            final(self).spec_input_1().kernel() == old(self).spec_input_1().kernel(),
            final(self).spec_input_2().kernel() == old(self).spec_input_2().kernel(),
            final(self).spec_output().kernel() == old(self).spec_output().kernel(),
            r is Err ==> final(self).cache() == old(self).cache(),
            final(self).cache() != old(self).cache() ==> final(self).cache() is Some,
    {
        let input_1_node = self.input_1.clone();
        let input_1_value_ref = match input_1_node.try_borrow() {
            Ok(guard) => guard,
            Err(e) => {
                return Err(NodeBorrowError::Borrow(e));
            },
        };
        let input_2_node = self.input_2.clone();
        let input_2_value_ref = match input_2_node.try_borrow() {
            Ok(guard) => guard,
            Err(e) => {
                return Err(NodeBorrowError::Borrow(e));
            },
        };
        let input_1 = ref_get(&input_1_value_ref);
        let input_2 = ref_get(&input_2_value_ref);
        assert(call_requires(old(self).spec_func(), (input_1, input_2)));
        if let Some(new_output) = self.turn(input_1, input_2) {
            if self.output.try_replace(new_output).is_ok() {
                self.record(input_1, input_2);
            }
        }
        Ok(())
    }
}

/// A process that has a variant that runs only when its inputs change.
pub trait IntoPure {
    type PureProc;

    fn into_pure(self) -> Self::PureProc;
}

impl<'a, TInput, TOutput, TFunc> IntoPure for UnaryFunc<'a, TInput, TOutput, TFunc> where
    TInput: PartialEq + Clone,
    TFunc: Fn(&TInput) -> TOutput,
 {
    type PureProc = PureUnaryFunc<'a, TInput, TOutput, TFunc>;

    /// The same nodes and function, with an empty cache.
    fn into_pure(self) -> (p: Self::PureProc)
        ensures
            p.spec_input() == self.input,
            p.spec_output() == self.output,
            p.spec_func() == self.func,
            p.cache() == None::<TInput>,
    {
        PureUnaryFunc::new(self.input, self.output, self.func)
    }
}

impl<'a, TInput1, TInput2, TOutput, TFunc> IntoPure for BinaryFunc<'a, TInput1, TInput2, TOutput, TFunc> where
    TInput1: PartialEq + Clone,
    TInput2: PartialEq + Clone,
    TFunc: Fn(&TInput1, &TInput2) -> TOutput,
 {
    type PureProc = PureBinaryFunc<'a, TInput1, TInput2, TOutput, TFunc>;

    /// The same nodes and function, with an empty cache.
    fn into_pure(self) -> (p: Self::PureProc)
        ensures
            p.spec_input_1() == self.input_1,
            p.spec_input_2() == self.input_2,
            p.spec_output() == self.output,
            p.spec_func() == self.func,
            p.cache() == None::<(TInput1, TInput2)>,
    {
        PureBinaryFunc::new(self.input_1, self.input_2, self.output, self.func)
    }
}

} // verus!
