use vstd::prelude::*;
use vstd::std_specs::cmp::PartialEqSpec;
use crate::base::common_types::digital_value::DigitalValue;
use crate::base::common_types::timing::{Duration, Time};
use crate::base::nodes::base::node::NodeRef;
use crate::base::nodes::base::time_keeper::{cycles_between, CyclesKeeper};
use crate::base::nodes::timing::clock::ClockNodeRef;

verus! {

/// The level of a pulse-width modulated output: high while the time into the
/// current cycle is at most the duration the input asks for.
pub open spec fn pwm_spec_level(current_cycle_dur: Duration, input_duration: Duration) -> DigitalValue {
    if current_cycle_dur <= input_duration {
        DigitalValue::High
    } else {
        DigitalValue::Low
    }
}

/// The level of a pulse-width modulated output: high while the time into the
/// current cycle is at most the duration the input asks for.
pub fn pwm_level(current_cycle_dur: Duration, input_duration: Duration) -> (level: DigitalValue)
    ensures
        level == if current_cycle_dur <= input_duration {
            DigitalValue::High
        } else {
            DigitalValue::Low
        },
{
    if current_cycle_dur <= input_duration {
        DigitalValue::High
    } else {
        DigitalValue::Low
    }
}

/// The duration that `input` asks for within a cycle of `cycle_duration`, from the
/// cache when it was made for an equal input; otherwise `compute` gives it and the
/// cache keeps it with a clone of the input.
pub fn get_duration<TInput: PartialEq + Clone, F: FnOnce(&Duration, &TInput) -> Duration>(
    last_input_cache: &mut Option<(TInput, Duration)>,
    input: &TInput,
    cycle_duration: &Duration,
    compute: F,
) -> (r: Duration)
    requires
        call_requires(compute, (cycle_duration, input)),
    ensures
        *final(last_input_cache) matches Some((_, d)) && d == r,
        *final(last_input_cache) != *old(last_input_cache) ==> {
            &&& call_ensures(compute, (cycle_duration, input), r)
            &&& *final(last_input_cache) matches Some((i, _)) && cloned(*input, i)
        },
        *old(last_input_cache) is None ==> {
            &&& call_ensures(compute, (cycle_duration, input), r)
            &&& *final(last_input_cache) matches Some((i, _)) && cloned(*input, i)
        },
        *old(last_input_cache) matches Some((c, d)) ==> (TInput::obeys_eq_spec() ==> if c.eq_spec(input) {
            r == d && *final(last_input_cache) == *old(last_input_cache)
        } else {
            call_ensures(compute, (cycle_duration, input), r) && (*final(last_input_cache) matches Some((i, _))
                && cloned(*input, i))
        }),
{
    let cache_is_valid = match &*last_input_cache {
        Some((cached_input, _)) => cached_input.eq(input),
        None => false,
    };
    if !cache_is_valid {
        let new_duration = compute(cycle_duration, input);
        let new_input = input.clone();
        assert(cloned(*input, new_input));
        *last_input_cache = Some((new_input, new_duration));
    }
    match &*last_input_cache {
        Some((_, duration)) => *duration,
        None => 0,
    }
}

/// Drives a digital output with a pulse-width modulated wave whose duty comes
/// from its input node.
#[verifier::reject_recursive_types(TInput)]
pub struct PwmGenerator<'a, TInput> where TInput: PartialEq + Clone {
    pub input: NodeRef<'a, TInput>,
    last_input_cache: Option<(TInput, Duration)>,
    pub clock: ClockNodeRef<'a>,
    cycles_keeper: CyclesKeeper,
    pub output: NodeRef<'a, DigitalValue>,
}

impl<'a, TInput> PwmGenerator<'a, TInput> where TInput: PartialEq + Clone {
    pub closed spec fn keeper(&self) -> CyclesKeeper {
        self.cycles_keeper
    }

    pub closed spec fn cache(&self) -> Option<(TInput, Duration)> {
        self.last_input_cache
    }

    /// A generator whose cycles last `cycle_duration` microseconds, the first
    /// starting at time 0, with nothing cached.
    pub fn new(
        input: NodeRef<'a, TInput>,
        clock: ClockNodeRef<'a>,
        output: NodeRef<'a, DigitalValue>,
        cycle_duration: Duration,
    ) -> (g: Self)
        ensures
            g.keeper().duration() == cycle_duration,
            g.keeper().start() == 0,
            g.cache() == None::<(TInput, Duration)>,
    {
        let cycles_keeper = CyclesKeeper::new(cycle_duration);
        Self { input, output, clock, cycles_keeper, last_input_cache: None }
    }

    /// The start of the current cycle.
    pub fn current_cycle_start(&self) -> (r: Time)
        ensures
            r == self.keeper().start(),
    {
        *self.cycles_keeper.get_current_cycle_start_time()
    }

    /// One turn at `current_time` with the input `current_input`: the cycles catch
    /// up with the time, and the output is high while the time into the current
    /// cycle is at most the duration the input asks for (`get_duration`, given the
    /// start of the current cycle as the cycle duration).
    pub fn step<F: FnOnce(&Duration, &TInput) -> Duration>(
        &mut self,
        current_time: &Time,
        current_input: &TInput,
        compute: F,
    ) -> (level: DigitalValue)
        requires
            *current_time >= old(self).keeper().start(),
            old(self).keeper().duration() > 0,
            forall|d: &Duration| call_requires(compute, (d, current_input)),
        ensures
            final(self).keeper().duration() == old(self).keeper().duration(),
            final(self).keeper().start() <= *current_time,
            final(self).keeper().start() == old(self).keeper().start() + (cycles_between(
                old(self).keeper().start(),
                old(self).keeper().duration(),
                *current_time,
            ) % 0x1_0000_0000) * old(self).keeper().duration(),
            final(self).cache() matches Some((_, d)) && level == pwm_spec_level(
                (*current_time - final(self).keeper().start()) as u64,
                d,
            ),
            final(self).cache() != old(self).cache() ==> (final(self).cache() matches Some((i, d))
                && cloned(*current_input, i) && call_ensures(compute, (&final(self).keeper().start(), current_input), d)),
    {
        self.cycles_keeper.get_cycles_and_update(current_time);
        let cycle_start = *self.cycles_keeper.get_current_cycle_start_time();
        let current_cycle_dur = *current_time - cycle_start;
        assert(call_requires(compute, (&cycle_start, current_input)));
        let input_calculate_dur = get_duration(&mut self.last_input_cache, current_input, &cycle_start, compute);
        pwm_level(current_cycle_dur, input_calculate_dur)
    }
}

} // verus!
