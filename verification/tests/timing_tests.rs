use nodes_n_procs::base::nodes::base::time_keeper::CyclesKeeper as MicrosCyclesKeeper;
use nodes_n_procs::nodes::timing::base::{Time, ONE};
use nodes_n_procs::nodes::timing::clock::{ClockProcess, DeltaTimeProcess, TimeGetter};
use nodes_n_procs::nodes::timing::periodic::{CyclesKeeper, PeriodicCyclesProcess, PeriodicImpulseProc};
use nodes_n_procs::nodes::timing::spin_counter::SpinCounter;

#[test]
fn keeper_counts_whole_cycles_both_ways() {
    let mut keeper = CyclesKeeper::new(ONE as i64);
    assert_eq!(keeper.get_cycles_distance(&(ONE / 2)), 0);
    assert_eq!(keeper.get_cycles_distance(&(3 * ONE + ONE / 2)), 3);
    assert_eq!(keeper.update(&(3 * ONE + ONE / 2)), 3);
    assert_eq!(keeper.get_cycles_distance(&(3 * ONE + ONE / 2)), 0);
    assert_eq!(keeper.get_cycles_distance(&ONE), -2);
}

#[test]
fn keeper_catches_up_with_the_time() {
    let mut keeper = CyclesKeeper::new(2 * ONE as i64);
    let t = 7 * ONE;
    let moved = keeper.update(&t);
    assert_eq!(moved, 3);
    assert_eq!(keeper.get_cycles_distance(&t), 0);
    assert_eq!(keeper.update(&t), 0);
}

#[test]
fn keeper_add_cycles_moves_the_cycle() {
    let mut keeper = CyclesKeeper::new(ONE as i64);
    keeper.add_cycles(5);
    assert_eq!(keeper.get_cycles_distance(&(5 * ONE)), 0);
    assert_eq!(keeper.get_cycles_distance(&(7 * ONE + 1)), 2);
    keeper.add_cycles(-2);
    assert_eq!(keeper.get_cycles_distance(&(3 * ONE)), 0);
    keeper.add_cycles(0);
    assert_eq!(keeper.get_cycles_distance(&(3 * ONE)), 0);
}

#[test]
fn keeper_with_a_new_duration_keeps_its_start() {
    let mut keeper = CyclesKeeper::new(ONE as i64);
    keeper.update_cycle_duration(&(4 * ONE as i64));
    assert_eq!(keeper.get_cycles_distance(&(3 * ONE)), 0);
    assert_eq!(keeper.get_cycles_distance(&(9 * ONE)), 2);
}

#[test]
fn impulse_is_raised_once_per_cycle_passed() {
    let mut proc = PeriodicImpulseProc(CyclesKeeper::new(ONE as i64));
    let mut signal: Option<()> = None;
    proc.resume(&(ONE as i64), &(ONE / 2), &mut signal);
    assert_eq!(signal, None);
    proc.resume(&(ONE as i64), &(2 * ONE + 1), &mut signal);
    assert_eq!(signal, Some(()));
    proc.resume(&(ONE as i64), &(2 * ONE + 2), &mut signal);
    assert_eq!(signal, None);
}

#[test]
fn cycles_process_adds_the_cycles_passed() {
    let mut proc: PeriodicCyclesProcess<i64> = PeriodicCyclesProcess::new_from_cycle_duration(ONE as i64);
    let mut count: i64 = 10;
    proc.resume(&(5 * ONE / 2), &mut count);
    assert_eq!(count, 12);
    proc.resume(&(5 * ONE / 2), &mut count);
    assert_eq!(count, 12);
    let mut other: PeriodicCyclesProcess<i64> = PeriodicCyclesProcess::new_from_keeper(CyclesKeeper::new(ONE as i64));
    let mut n: i64 = 0;
    other.resume(&(4 * ONE + 3), &mut n);
    assert_eq!(n, 4);
}

#[test]
fn delta_time_is_the_time_between_readings() {
    let mut proc = DeltaTimeProcess::new();
    let mut delta: i64 = -1;
    proc.resume(&10, &mut delta);
    assert_eq!(delta, -1);
    proc.resume(&25, &mut delta);
    assert_eq!(delta, 15);
    proc.resume(&25, &mut delta);
    assert_eq!(delta, 0);
}

#[test]
fn spin_counter_counts_turns() {
    let mut counter = SpinCounter::new();
    let mut n: u64 = 0;
    counter.resume(&mut n);
    counter.resume(&mut n);
    assert_eq!(n, 2);
}

struct FixedTime(Time);

impl TimeGetter for FixedTime {
    fn get_current_time(&mut self) -> Time {
        self.0 += 1;
        self.0
    }
}

#[test]
fn clock_process_reads_the_time_getter() {
    let mut clock = ClockProcess::new(FixedTime(41));
    let mut reading: Time = 0;
    clock.resume(&mut reading);
    assert_eq!(reading, 42);
}

#[test]
fn micros_keeper_counts_and_moves_its_start() {
    let mut keeper = MicrosCyclesKeeper::new(100);
    assert_eq!(keeper.get_cycles(&350), 3);
    assert_eq!(keeper.get_cycles_and_update(&350), 3);
    assert_eq!(*keeper.get_current_cycle_start_time(), 300);
    assert_eq!(keeper.get_cycles_and_update(&399), 0);
    assert_eq!(*keeper.get_current_cycle_start_time(), 300);
    keeper.add_cycles(2);
    assert_eq!(*keeper.get_current_cycle_start_time(), 500);
}
