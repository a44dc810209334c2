use vstd::prelude::*;
use crate::base::common_types::timing::Time;
use crate::base::nodes::base::node::{NodeBorrowError, NodeRef};

verus! {

/// Writes a function of the time to its output node at every step.
#[verifier::reject_recursive_types(TOutput)]
pub struct TimeFunc<'a, TOutput, TFunc: FnMut(&Time) -> TOutput> {
    output: NodeRef<'a, TOutput>,
    func: TFunc,
}

impl<'node, TOutput, TFunc: FnMut(&Time) -> TOutput + 'node> TimeFunc<'node, TOutput, TFunc> {
    pub closed spec fn spec_output(&self) -> NodeRef<'node, TOutput> {
        self.output
    }

    pub closed spec fn spec_func(&self) -> TFunc {
        self.func
    }

    pub fn new(func: TFunc, output: NodeRef<'node, TOutput>) -> (t: Self)
        ensures
            t.spec_func() == func,
            t.spec_output() == output,
    {
        Self { output, func }
    }

    /// The value to write at the time `input`: `func` of it.
    pub fn value_at(&mut self, input: &Time) -> (o: TOutput)
        requires
            call_requires(old(self).spec_func(), (input,)),
        ensures
            call_ensures(old(self).spec_func(), (input,), o),
            final(self).spec_output() == old(self).spec_output(),
    {
        (self.func)(input)
    }

    /// Writes `func` of `input` (`value_at`) to the output node; a refused borrow
    /// of the node is the error.
    pub fn next(&mut self, input: &Time) -> (r: Result<(), NodeBorrowError>)
        requires
            call_requires(old(self).spec_func(), (input,)),
        ensures
            r matches Err(e) ==> e is Write,
            final(self).spec_output().kernel() == old(self).spec_output().kernel(),
    {
        let res = self.value_at(input);
        match self.output.try_replace(res) {
            Ok(_) => Ok(()),
            Err(_) => Err(NodeBorrowError::Write),
        }
    }
}

/// Whether a square wave is in its upper half at `time`: the time, moved by the
/// offset, within the cycle is at most half the cycle.
pub open spec fn square_wave_up(time: int, cycle_duration_us: int, cycle_offset_us: int) -> bool {
    (time + cycle_offset_us) % cycle_duration_us <= cycle_duration_us / 2
}

/// The level of a square wave of cycle `cycle_duration_us` microseconds, moved by
/// `cycle_offset_us`, at `time`: whether it is up.
pub fn square_wave_is_up(time: &Time, cycle_duration_us: u64, cycle_offset_us: u64) -> (up: bool)
    requires
        cycle_duration_us > 0,
        *time + cycle_offset_us <= u64::MAX,
    ensures
        up == square_wave_up(*time as int, cycle_duration_us as int, cycle_offset_us as int),
{
    let time_mod = (*time + cycle_offset_us) % cycle_duration_us;
    time_mod <= cycle_duration_us / 2
}

/// Whether a pulse-width modulated wave is up at `time`: the time, moved by the
/// offset, within the cycle is at most the duration the value asks for.
pub open spec fn pwm_wave_up(time: int, val_duration: int, cycle_duration_us: int, cycle_offset_us: int) -> bool {
    (time + cycle_offset_us) % cycle_duration_us <= val_duration
}

/// The level of a pulse-width modulated wave of cycle `cycle_duration_us`
/// microseconds, moved by `cycle_offset_us`, that stays up `val_duration`
/// microseconds of each cycle: whether it is up at `time`.
pub fn pwm_wave_is_up(val_duration: u64, time: &Time, cycle_duration_us: u64, cycle_offset_us: u64) -> (up: bool)
    requires
        cycle_duration_us > 0,
        *time + cycle_offset_us <= u64::MAX,
    ensures
        up == pwm_wave_up(*time as int, val_duration as int, cycle_duration_us as int, cycle_offset_us as int),
{
    let duration_since_cycle_start = (*time + cycle_offset_us) % cycle_duration_us;
    duration_since_cycle_start <= val_duration
}

/// A square wave is a periodic signal of the time moved by the offset: whole
/// cycles added to the time or to the offset do not change its level, moving the
/// offset into the time does not either, and within the first cycle after the
/// offset it is up exactly up to the half of the cycle.
pub proof fn lemma_square_wave_shape(time: int, cycle_duration_us: int, cycle_offset_us: int, k: int)
    requires
        cycle_duration_us > 0,
    ensures
        square_wave_up(time + k * cycle_duration_us, cycle_duration_us, cycle_offset_us) == square_wave_up(
            time,
            cycle_duration_us,
            cycle_offset_us,
        ),
        square_wave_up(time, cycle_duration_us, cycle_offset_us + cycle_duration_us) == square_wave_up(
            time,
            cycle_duration_us,
            cycle_offset_us,
        ),
        square_wave_up(time, cycle_duration_us, cycle_offset_us) == square_wave_up(
            time + cycle_offset_us,
            cycle_duration_us,
            0,
        ),
        0 <= time + cycle_offset_us < cycle_duration_us ==> (square_wave_up(
            time,
            cycle_duration_us,
            cycle_offset_us,
        ) <==> time + cycle_offset_us <= cycle_duration_us / 2),
{
    lemma_cycle_position(time + cycle_offset_us, cycle_duration_us, k);
}

/// A pulse-width modulated wave is a periodic signal of the time moved by the
/// offset: whole cycles added to the time or to the offset do not change its level,
/// moving the offset into the time does not either, and within the first cycle
/// after the offset it is up exactly for the duration the value asks for.
pub proof fn lemma_pwm_wave_shape(time: int, val_duration: int, cycle_duration_us: int, cycle_offset_us: int, k: int)
    requires
        cycle_duration_us > 0,
    ensures
        pwm_wave_up(time + k * cycle_duration_us, val_duration, cycle_duration_us, cycle_offset_us) == pwm_wave_up(
            time,
            val_duration,
            cycle_duration_us,
            cycle_offset_us,
        ),
        pwm_wave_up(time, val_duration, cycle_duration_us, cycle_offset_us + cycle_duration_us) == pwm_wave_up(
            time,
            val_duration,
            cycle_duration_us,
            cycle_offset_us,
        ),
        pwm_wave_up(time, val_duration, cycle_duration_us, cycle_offset_us) == pwm_wave_up(
            time + cycle_offset_us,
            val_duration,
            cycle_duration_us,
            0,
        ),
        0 <= time + cycle_offset_us < cycle_duration_us ==> (pwm_wave_up(
            time,
            val_duration,
            cycle_duration_us,
            cycle_offset_us,
        ) <==> time + cycle_offset_us <= val_duration),
{
    lemma_cycle_position(time + cycle_offset_us, cycle_duration_us, k);
}

/// The position in the cycle of a moment does not change with whole cycles, and
/// within the first cycle it is the moment itself.
proof fn lemma_cycle_position(t: int, cycle: int, k: int)
    requires
        cycle > 0,
    ensures
        (t + k * cycle) % cycle == t % cycle,
        (t + cycle) % cycle == t % cycle,
        0 <= t < cycle ==> t % cycle == t,
{
    vstd::arithmetic::div_mod::lemma_mod_multiples_vanish(k, t, cycle);
    vstd::arithmetic::div_mod::lemma_mod_add_multiples_vanish(t, cycle);
    assert(cycle * k == k * cycle) by (nonlinear_arith);
    if 0 <= t < cycle {
        vstd::arithmetic::div_mod::lemma_small_mod(t as nat, cycle as nat);
    }
}

} // verus!
