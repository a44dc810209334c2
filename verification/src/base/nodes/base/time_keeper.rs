use vstd::prelude::*;
use crate::base::common_types::timing::{Duration, Time};

verus! {

/// The number of whole cycles of length `duration` from `start` to `time`.
pub open spec fn cycles_between(start: Time, duration: Duration, time: Time) -> int {
    (time - start) / (duration as int)
}

/// Keeps the start of the current cycle of a periodic activity.
pub struct CyclesKeeper {
    pub cycle_duration: Duration,
    current_cycle_start: Time,
}

impl CyclesKeeper {
    pub closed spec fn start(&self) -> Time {
        self.current_cycle_start
    }

    pub closed spec fn duration(&self) -> Duration {
        self.cycle_duration
    }

    /// A keeper whose first cycle starts at time 0.
    pub fn new(cycle_duration: Duration) -> (k: Self)
        ensures
            k.duration() == cycle_duration,
            k.start() == 0,
    {
        Self { cycle_duration, current_cycle_start: 0 }
    }

    /// The length of a cycle.
    pub fn get_cycle_duration(&self) -> (r: Duration)
        ensures
            r == self.duration(),
    {
        self.cycle_duration
    }

    /// The number of whole cycles since the start of the current cycle, cut to 32 bits.
    pub fn get_cycles(&self, current_time: &Time) -> (r: u32)
        requires
            *current_time >= self.start(),
            self.duration() > 0,
        ensures
            r == cycles_between(self.start(), self.duration(), *current_time) % 0x1_0000_0000,
    {
        let res = (*current_time - self.current_cycle_start) / self.cycle_duration;
        assert(res as u32 == res % 0x1_0000_0000) by (bit_vector);
        res as u32
    }

    /// Moves the start of the current cycle `cycles_count` cycles later.
    pub fn add_cycles(&mut self, cycles_count: u32)
        requires
            old(self).start() + cycles_count * old(self).duration() <= u64::MAX,
        ensures
            final(self).start() == old(self).start() + cycles_count * old(self).duration(),
            final(self).duration() == old(self).duration(),
    {
        proof {
            vstd::arithmetic::mul::lemma_mul_upper_bound(
                cycles_count as int,
                cycles_count as int,
                self.cycle_duration as int,
                self.cycle_duration as int,
            );
            assert(cycles_count * self.cycle_duration <= u64::MAX);
        }
        self.current_cycle_start += (cycles_count as u64) * self.cycle_duration;
    }

    /// The number of whole cycles since the start of the current cycle (cut to 32
    /// bits); the current cycle then starts that many cycles later.
    pub fn get_cycles_and_update(&mut self, current_time: &Time) -> (r: u32)
        requires
            *current_time >= old(self).start(),
            old(self).duration() > 0,
        ensures
            r == cycles_between(old(self).start(), old(self).duration(), *current_time) % 0x1_0000_0000,
            final(self).start() == old(self).start() + r * old(self).duration(),
            final(self).start() <= *current_time,
            final(self).duration() == old(self).duration(),
            cycles_between(old(self).start(), old(self).duration(), *current_time) < 0x1_0000_0000
                ==> *current_time < final(self).start() + final(self).duration(),
    {
        let cycles_passed = self.get_cycles(current_time);
        proof {
            lemma_cycles_fit(self.start(), self.cycle_duration, *current_time, cycles_passed);
        }
        if cycles_passed > 0 {
            self.add_cycles(cycles_passed);
        }
        cycles_passed
    }

    pub fn get_current_cycle_start_time(&self) -> (r: &Time)
        ensures
            *r == self.start(),
    {
        &self.current_cycle_start
    }
}

/// `c` cycles from `start` end no later than `time` when `c` is at most the number of
/// whole cycles between them, and the next cycle ends after `time` when it is that number.
proof fn lemma_cycles_fit(start: Time, duration: Duration, time: Time, c: u32)
    requires
        time >= start,
        duration > 0,
        c == cycles_between(start, duration, time) % 0x1_0000_0000,
    ensures
        start + c * duration <= time,
        c == cycles_between(start, duration, time) ==> time < start + c * duration + duration,
        cycles_between(start, duration, time) < 0x1_0000_0000 ==> c == cycles_between(start, duration, time),
        c == 0 ==> c * duration == 0,
{
    let d = time - start;
    let q = d / (duration as int);
    assert(0 <= q);
    assert(c <= q) by {
        vstd::arithmetic::div_mod::lemma_mod_pos_bound(q, 0x1_0000_0000);
        if q < 0x1_0000_0000 {
            vstd::arithmetic::div_mod::lemma_small_mod(q as nat, 0x1_0000_0000);
        } else {
            vstd::arithmetic::div_mod::lemma_mod_pos_bound(q, 0x1_0000_0000);
        }
    }
    if q < 0x1_0000_0000 {
        vstd::arithmetic::div_mod::lemma_small_mod(q as nat, 0x1_0000_0000);
    }
    if c == 0 {
        vstd::arithmetic::mul::lemma_mul_basics(duration as int);
    }
    vstd::arithmetic::div_mod::lemma_fundamental_div_mod(d, duration as int);
    vstd::arithmetic::div_mod::lemma_mod_pos_bound(d, duration as int);
    vstd::arithmetic::mul::lemma_mul_inequality(c as int, q, duration as int);
    vstd::arithmetic::mul::lemma_mul_is_commutative(duration as int, q);
}

/// Once the keeper has caught up with `time`, no whole cycle is left before `time`.
pub proof fn lemma_caught_up(start: Time, duration: Duration, time: Time)
    requires
        time >= start,
        duration > 0,
        cycles_between(start, duration, time) < 0x1_0000_0000,
    ensures
        ({
            let c = cycles_between(start, duration, time);
            let new_start = start + c * duration;
            new_start <= time && cycles_between(new_start as Time, duration, time) == 0
        }),
{
    let c = cycles_between(start, duration, time);
    vstd::arithmetic::div_mod::lemma_small_mod(c as nat, 0x1_0000_0000);
    lemma_cycles_fit(start, duration, time, c as u32);
    let new_start = start + c * duration;
    vstd::arithmetic::div_mod::lemma_basic_div(time - new_start, duration as int);
}

} // verus!
