use core::marker::PhantomData;
use vstd::prelude::*;
use crate::nodes::timing::base::{Duration, Instant};

verus! {

/// The time range of the current cycle.
struct CycleTimeRange {
    start: Instant,
    end: Instant,
}

/// The number of whole cycles of length `|duration|` from `start` to `time`: the
/// distance after the end of the cycle `[start, end]`, the negated distance before
/// its start, and 0 within it.
pub open spec fn cycles_distance(start: int, end: int, duration: int, time: int) -> int {
    let length = if duration < 0 { -duration } else { duration };
    if time > end {
        (time - start) / length
    } else if time < start {
        -((start - time) / length)
    } else {
        0
    }
}

/// Whether a keeper with the cycle `[start, end]` of length `duration` can catch up
/// with `time`: the cycles have a length, the time is not between a backwards
/// cycle's end and start, the distance fits an `i32`, and the moved cycle stays on
/// the time line.
pub open spec fn update_allowed(start: int, end: int, duration: int, time: int) -> bool {
    let c = cycles_distance(start, end, duration, time);
    &&& duration != 0
    &&& time > end ==> time >= start
    &&& -i32::MAX <= c <= i32::MAX
    &&& c != 0 ==> {
        let shift = duration * c;
        &&& i64::MIN <= shift <= i64::MAX
        &&& 0 <= start + shift <= u64::MAX
        &&& 0 <= start + shift + duration <= u64::MAX
    }
}

/// Keeps the current cycle of a periodic activity on a fixed-point time line.
pub struct CyclesKeeper {
    cycle_duration: Duration,
    current_cycle: CycleTimeRange,
}

impl CyclesKeeper {
    pub closed spec fn duration(&self) -> int {
        self.cycle_duration as int
    }

    pub closed spec fn start(&self) -> int {
        self.current_cycle.start as int
    }

    pub closed spec fn end(&self) -> int {
        self.current_cycle.end as int
    }

    /// The current cycle ends one cycle length after it starts.
    pub open spec fn wf(&self) -> bool {
        self.end() == self.start() + self.duration()
    }

    /// A keeper whose first cycle is `[0, cycle_duration]`. A duration of zero is
    /// refused, and so is a negative one, which would end the first cycle before 0.
    pub fn new(cycle_duration: Duration) -> (k: Self)
        requires
            cycle_duration > 0,
        ensures
            k.wf(),
            k.duration() == cycle_duration,
            k.start() == 0,
    {
        Self {
            cycle_duration,
            current_cycle: CycleTimeRange { start: 0, end: cycle_duration as u64 },
        }
    }

    /// Moves the current cycle by `cycle_count` cycles (backwards when negative).
    pub fn add_cycles(&mut self, cycle_count: i32)
        requires
            cycle_count != 0 ==> {
                let shift = old(self).duration() * cycle_count;
                &&& i64::MIN <= shift <= i64::MAX
                &&& 0 <= old(self).start() + shift <= u64::MAX
                &&& 0 <= old(self).start() + shift + old(self).duration() <= u64::MAX
            },
        ensures
            final(self).duration() == old(self).duration(),
            cycle_count == 0 ==> final(self).start() == old(self).start() && final(self).end() == old(self).end(),
            cycle_count != 0 ==> final(self).start() == old(self).start() + old(self).duration() * cycle_count
                && final(self).end() == final(self).start() + final(self).duration(),
    {
        if cycle_count == 0 {
            return;
        }
        let shift = self.cycle_duration * (cycle_count as i64);
        let next_cycle_start = add_signed(self.current_cycle.start, shift);
        let next_cycle_end = add_signed(next_cycle_start, self.cycle_duration);
        self.current_cycle = CycleTimeRange { start: next_cycle_start, end: next_cycle_end };
    }

    /// The number of whole cycles between the current cycle and `current_time`.
    pub fn get_cycles_distance(&self, current_time: &Instant) -> (r: i32)
        requires
            self.duration() != 0,
            *current_time > self.end() ==> *current_time >= self.start(),
            -i32::MAX <= cycles_distance(self.start(), self.end(), self.duration(), *current_time as int) <= i32::MAX,
        ensures
            r == cycles_distance(self.start(), self.end(), self.duration(), *current_time as int),
    {
        let length: u64 = unsigned_abs(self.cycle_duration);
        if *current_time > self.current_cycle.end {
            let ahead: u64 = (*current_time - self.current_cycle.start) / length;
            assert(ahead == cycles_distance(self.start(), self.end(), self.duration(), *current_time as int));
            ahead as i32
        } else if *current_time < self.current_cycle.start {
            let back: u64 = (self.current_cycle.start - *current_time) / length;
            assert(-back == cycles_distance(self.start(), self.end(), self.duration(), *current_time as int));
            -(back as i32)
        } else {
            0
        }
    }

    /// Gives the cycles a new length, keeping the start of the current cycle.
    pub fn update_cycle_duration(&mut self, new_duration: &Duration)
        requires
            old(self).duration() != *new_duration ==> 0 <= old(self).start() + *new_duration <= u64::MAX,
        ensures
            final(self).duration() == *new_duration,
            final(self).start() == old(self).start(),
            old(self).duration() != *new_duration ==> final(self).end() == old(self).start() + *new_duration,
            old(self).duration() == *new_duration ==> final(self).end() == old(self).end(),
    {
        if self.cycle_duration != *new_duration {
            self.current_cycle.end = add_signed(self.current_cycle.start, *new_duration);
            self.cycle_duration = *new_duration;
        }
    }

    /// Whether `update` can run at `time`.
    pub open spec fn can_update(&self, time: int) -> bool {
        update_allowed(self.start(), self.end(), self.duration(), time)
    }

    /// The end of the current cycle once the cycles have the length `d`.
    pub open spec fn end_with_duration(&self, d: int) -> int {
        if self.duration() != d { self.start() + d } else { self.end() }
    }

    /// Moves the current cycle by the cycles between it and `current_time`; gives
    /// how many cycles it moved.
    pub fn update(&mut self, current_time: &Instant) -> (r: i32)
        requires
            old(self).can_update(*current_time as int),
        ensures
            r == cycles_distance(old(self).start(), old(self).end(), old(self).duration(), *current_time as int),
            final(self).duration() == old(self).duration(),
            r == 0 ==> final(self).start() == old(self).start() && final(self).end() == old(self).end(),
            r != 0 ==> final(self).start() == old(self).start() + old(self).duration() * r
                && final(self).end() == final(self).start() + final(self).duration(),
            // catching up: from a well-formed cycle of positive length and a time at or
            // after its start, the new current cycle holds the time
            old(self).wf() && old(self).duration() > 0 && *current_time >= old(self).start() ==> {
                &&& final(self).wf()
                &&& r >= 0
                &&& final(self).start() <= *current_time <= final(self).end()
            },
    {
        let cycles_count = self.get_cycles_distance(current_time);
        proof {
            if self.wf() && self.duration() > 0 && *current_time >= self.start() {
                lemma_cycle_catch_up(self.start(), self.duration(), *current_time as int, cycles_count as int);
            }
        }
        self.add_cycles(cycles_count);
        cycles_count
    }
}

/// Catching up with a time at or after the start of the current cycle leaves the
/// time within the new current cycle.
proof fn lemma_cycle_catch_up(start: int, d: int, t: int, c: int)
    requires
        d > 0,
        start <= t,
        c == cycles_distance(start, start + d, d, t),
    ensures
        c >= 0,
        start + d * c <= t <= start + d * c + d,
        c > 0 ==> d * c <= t - start,
{
    if t > start + d {
        vstd::arithmetic::div_mod::lemma_fundamental_div_mod(t - start, d);
        vstd::arithmetic::div_mod::lemma_mod_pos_bound(t - start, d);
        vstd::arithmetic::div_mod::lemma_div_pos_is_pos(t - start, d);
        vstd::arithmetic::mul::lemma_mul_is_commutative(d, c);
    } else {
        vstd::arithmetic::mul::lemma_mul_basics(d);
    }
}

/// `base` moved by the signed `shift`; the result stays on the time line.
fn add_signed(base: Instant, shift: Duration) -> (r: Instant)
    requires
        0 <= base + shift <= u64::MAX,
    ensures
        r == base + shift,
{
    if shift >= 0 {
        base + (shift as u64)
    } else {
        let back: u64 = unsigned_abs(shift);
        base - back
    }
}

/// The magnitude of `d`.
fn unsigned_abs(d: Duration) -> (r: u64)
    ensures
        r == if d < 0 { -d } else { d as int },
{
    if d >= 0 {
        d as u64
    } else if d == i64::MIN {
        0x8000_0000_0000_0000u64
    } else {
        (-d) as u64
    }
}

/// Adds the number of cycles passed to a count.
pub struct PeriodicCyclesProcess<TOut> {
    pub cycles_keeper: CyclesKeeper,
    __phantom: PhantomData<TOut>,
}

impl<TOut> PeriodicCyclesProcess<TOut> {
    pub closed spec fn keeper(&self) -> CyclesKeeper {
        self.cycles_keeper
    }

    pub fn new_from_cycle_duration(cycle_duration: Duration) -> (p: Self)
        requires
            cycle_duration > 0,
        ensures
            p.keeper().wf(),
            p.keeper().duration() == cycle_duration,
            p.keeper().start() == 0,
    {
        let cycles_keeper = CyclesKeeper::new(cycle_duration);
        Self { cycles_keeper, __phantom: PhantomData }
    }

    pub fn new_from_keeper(cycles_keeper: CyclesKeeper) -> (p: Self)
        ensures
            p.keeper() == cycles_keeper,
    {
        Self { cycles_keeper, __phantom: PhantomData }
    }
}

impl PeriodicCyclesProcess<i64> {
    /// Catches the keeper up with `current_time` and adds the cycles passed, when
    /// they are ahead, to the count.
    pub fn resume(&mut self, current_time: &Instant, cycles_count: &mut i64)
        requires
            old(self).keeper().can_update(*current_time as int),
            ({
                let c = cycles_distance(
                    old(self).keeper().start(),
                    old(self).keeper().end(),
                    old(self).keeper().duration(),
                    *current_time as int,
                );
                c > 0 ==> *old(cycles_count) + c <= i64::MAX
            }),
        ensures
            ({
                let c = cycles_distance(
                    old(self).keeper().start(),
                    old(self).keeper().end(),
                    old(self).keeper().duration(),
                    *current_time as int,
                );
                let (before, after) = (old(self).keeper(), final(self).keeper());
                &&& *final(cycles_count) == if c > 0 { *old(cycles_count) + c } else { *old(cycles_count) as int }
                &&& after.duration() == before.duration()
                &&& c == 0 ==> after.start() == before.start() && after.end() == before.end()
                &&& c != 0 ==> after.start() == before.start() + before.duration() * c
                    && after.end() == after.start() + after.duration()
                &&& before.wf() && before.duration() > 0 && *current_time >= before.start() ==> {
                    &&& after.wf()
                    &&& after.start() <= *current_time <= after.end()
                }
            }),
    {
        let cycles_counted = self.cycles_keeper.update(current_time);
        if cycles_counted > 0 {
            *cycles_count += cycles_counted as i64;
        }
    }
}

/// Raises the activation signal once per cycle passed and lowers it otherwise.
pub struct PeriodicImpulseProc(pub CyclesKeeper);

impl PeriodicImpulseProc {
    /// Gives the cycles the length `duration`, catches up with `current_time`, and
    /// raises the signal when the keeper moved ahead, lowering it otherwise.
    pub fn resume(&mut self, duration: &Duration, current_time: &Instant, activation_signal: &mut Option<()>)
        requires
            old(self).0.duration() != *duration ==> 0 <= old(self).0.start() + *duration <= u64::MAX,
            update_allowed(
                old(self).0.start(),
                old(self).0.end_with_duration(*duration as int),
                *duration as int,
                *current_time as int,
            ),
        ensures
            ({
                let c = cycles_distance(
                    old(self).0.start(),
                    old(self).0.end_with_duration(*duration as int),
                    *duration as int,
                    *current_time as int,
                );
                let (before, after) = (old(self).0, final(self).0);
                &&& *final(activation_signal) == if c > 0 { Some(()) } else { None::<()> }
                &&& after.duration() == *duration
                &&& c == 0 ==> after.start() == before.start()
                    && after.end() == before.end_with_duration(*duration as int)
                &&& c != 0 ==> after.start() == before.start() + *duration * c
                    && after.end() == after.start() + after.duration()
                &&& before.wf() && *duration > 0 && *current_time >= before.start() ==> {
                    &&& after.wf()
                    &&& after.start() <= *current_time <= after.end()
                }
            }),
    {
        self.0.update_cycle_duration(duration);
        let cycles_count = self.0.update(current_time);
        if cycles_count > 0 {
            *activation_signal = Some(());
        } else if activation_signal.is_some() {
            *activation_signal = None;
        }
    }
}

} // verus!
