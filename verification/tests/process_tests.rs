use nodes_n_procs::base::common_types::digital_value::DigitalValue;
use nodes_n_procs::base::nodes::sampling::sample_history::SampleHistory;
use nodes_n_procs::base::nodes::stepper::stepper::{StepperParm as BaseStepperParm, StepperSpeed, StepperStatus, StepperStepPinStatus};
use nodes_n_procs::collections::bounded_queue::Queue;
use nodes_n_procs::nodes::io::logger::{LogWriter, Logger};
use nodes_n_procs::nodes::procs_wrappers::fns::FnProc;
use nodes_n_procs::nodes::sampling::sample_history_saver::SampleHistorySaver;
use nodes_n_procs::nodes::sampling::sample_latcher::SampleLatcher;
use nodes_n_procs::nodes::sampling::sampler::Sampler;
use nodes_n_procs::nodes::stepper::base::{
    update_stepper_step_cycle_status, RotationDir, StageTimeInfo, StepperDriverWriteLock, StepperParm, StepperPosition,
    StepperStatus as CycleStepperStatus, StepperStepCycleInCycleParms, StepperStepCycleInCycleStage,
    StepperStepCycleInCycleStatus, StepperStepCycleState, StepperStepCycleStatus,
};
use nodes_n_procs::base::nodes::timing::clock::ClockReading;
use nodes_n_procs::nodes::stepper::speed_controller::StepperSpeedController;

#[test]
fn sampler_samples_on_the_signal() {
    let mut s: Sampler<u8> = Sampler::new();
    let mut out: Option<u8> = None;
    s.resume(&Some(()), &5, &mut out);
    assert_eq!(out, Some(5));
    s.resume(&None, &6, &mut out);
    assert_eq!(out, None);
}

#[test]
fn latcher_keeps_the_last_sample() {
    let mut l: SampleLatcher<u8> = SampleLatcher::new();
    let mut latched = 1u8;
    l.resume(&None, &mut latched);
    assert_eq!(latched, 1);
    l.resume(&Some(7), &mut latched);
    assert_eq!(latched, 7);
}

#[test]
fn history_saver_pushes_samples() {
    let mut saver: SampleHistorySaver<u8, 2> = SampleHistorySaver::new();
    let mut h: SampleHistory<u8, 2> = SampleHistory::new();
    saver.resume(&None, &mut h);
    assert_eq!(h.full_len(), 0);
    saver.resume(&Some(1), &mut h);
    saver.resume(&Some(2), &mut h);
    saver.resume(&Some(3), &mut h);
    assert_eq!(h.full_len(), 3);
    assert_eq!(h.len(), 2);
    assert_eq!(*h.get(1).unwrap().value, 3);
}

#[test]
fn logger_queues_a_message_on_the_signal() {
    let mut logger: Logger<u32, _, 3> = Logger::new(|v: &u32| format!("v={}", v));
    let mut q: Queue<String, 3> = Queue::new();
    logger.resume(&1, &None, &mut q);
    assert!(q.is_empty());
    logger.resume(&1, &Some(()), &mut q);
    logger.resume(&2, &Some(()), &mut q);
    logger.resume(&3, &Some(()), &mut q);
    assert_eq!(q.dequeue(), Some(String::from("v=1")));
    assert_eq!(q.dequeue(), Some(String::from("v=2")));
    assert_eq!(q.dequeue(), None);
}

#[test]
fn log_writer_without_a_pending_message_writes_nothing() {
    let mut written: Vec<String> = Vec::new();
    let mut q: Queue<String, 3> = Queue::new();
    q.enqueue(String::from("a")).unwrap();
    {
        let mut writer: LogWriter<_, 3> = LogWriter::new(|s: &String| {
            written.push(s.clone());
            true
        });
        writer.resume(&mut q);
    }
    assert!(written.is_empty());
    assert_eq!(q.len(), 1);
}

#[test]
fn fn_proc_calls_its_function() {
    let mut total = 0u32;
    {
        let mut p = FnProc::new(|x: u32| total += x);
        p.resume(2);
        p.resume(3);
    }
    assert_eq!(total, 5);
}

fn controller() -> StepperSpeedController {
    StepperSpeedController::new(StepperParm { min_upstep_duration: 10, min_downstep_duration: 10, steps_per_rev: 200 })
}

#[test]
fn stepper_parameters_have_defaults() {
    let p = StepperParm::default();
    assert_eq!((p.min_upstep_duration, p.min_downstep_duration, p.steps_per_rev), (500, 500, 200));
    let b = BaseStepperParm::default();
    assert_eq!((b.min_upstep_time_us, b.min_downstep_time_us, b.microstepping_factor), (500, 500, 1));
}

#[test]
fn stepper_controller_makes_a_step_cycle_toward_the_set_point() {
    let c = controller();
    let speed = StepperSpeed::from_step_cycle_duration(100);
    let mut status = StepperStatus { position: 0, stepper_step_status: StepperStepPinStatus::Awaiting, status_last_update: 0 };
    let mut step = DigitalValue::Low;
    let mut dir = DigitalValue::Low;
    let setpoint = 2i64;
    c.next(&mut status, &speed, &setpoint, &mut step, &mut dir, &50);
    assert!(status.stepper_step_status == StepperStepPinStatus::Awaiting);
    c.next(&mut status, &speed, &setpoint, &mut step, &mut dir, &80);
    assert!(status.stepper_step_status == StepperStepPinStatus::High);
    assert_eq!(status.status_last_update, 80);
    assert!(step == DigitalValue::High);
    assert!(dir == DigitalValue::Low);
    c.next(&mut status, &speed, &setpoint, &mut step, &mut dir, &95);
    assert!(status.stepper_step_status == StepperStepPinStatus::Low);
    assert_eq!(status.status_last_update, 90);
    assert!(step == DigitalValue::Low);
    c.next(&mut status, &speed, &setpoint, &mut step, &mut dir, &100);
    assert!(status.stepper_step_status == StepperStepPinStatus::Awaiting);
    assert_eq!(status.position, 1);
    assert_eq!(status.status_last_update, 100);
}

#[test]
fn stepper_controller_rests_at_the_set_point_and_steps_down() {
    let c = controller();
    let speed = StepperSpeed::from_step_cycle_duration(100);
    let mut status = StepperStatus { position: 3, stepper_step_status: StepperStepPinStatus::Awaiting, status_last_update: 0 };
    let mut step = DigitalValue::Low;
    let mut dir = DigitalValue::Low;
    c.next(&mut status, &speed, &3, &mut step, &mut dir, &1000);
    assert!(status.stepper_step_status == StepperStepPinStatus::Awaiting);
    assert_eq!(status.status_last_update, 0);
    c.next(&mut status, &speed, &1, &mut step, &mut dir, &1000);
    assert!(dir == DigitalValue::High);
    c.next(&mut status, &speed, &1, &mut step, &mut dir, &1000);
    c.next(&mut status, &speed, &1, &mut step, &mut dir, &1000);
    assert_eq!(status.position, 2);
    let _p = StepperPosition(status.position);
    assert_eq!(StepperSpeed::stopped().step_cycle_duration, u64::MAX);
}

fn high_until(until: u64) -> StepperStepCycleStatus {
    StepperStepCycleStatus {
        stage: StepperStepCycleState::InCycle(StepperStepCycleInCycleStatus {
            state: StepperStepCycleInCycleStage::High,
            until,
        }),
        time_info: StageTimeInfo { current_stage_start: 0, current_stage_end: Some(until) },
    }
}

#[test]
fn step_cycle_goes_high_low_awaiting() {
    let parms = StepperStepCycleInCycleParms { high_duration: 10, low_duration: 30 };
    let mut s = high_until(100);
    update_stepper_step_cycle_status(&mut s, &parms, &99);
    assert!(s == high_until(100));
    update_stepper_step_cycle_status(&mut s, &parms, &100);
    assert!(s.stage == StepperStepCycleState::InCycle(StepperStepCycleInCycleStatus {
        state: StepperStepCycleInCycleStage::Low,
        until: 130,
    }));
    assert!(s.time_info == StageTimeInfo { current_stage_start: 100, current_stage_end: Some(130) });
    update_stepper_step_cycle_status(&mut s, &parms, &129);
    assert!(s.stage != StepperStepCycleState::Awaiting);
    update_stepper_step_cycle_status(&mut s, &parms, &140);
    assert!(s.stage == StepperStepCycleState::Awaiting);
    assert!(s.time_info == StageTimeInfo { current_stage_start: 140, current_stage_end: None });
    let before = s;
    update_stepper_step_cycle_status(&mut s, &parms, &1000);
    assert!(s == before);
}

#[test]
fn stepper_write_lock_updates_with_the_downstep_duration() {
    let parms = StepperParm::default();
    let clock = ClockReading { current_time: 200, delta_time: 5 };
    let mut lock = StepperDriverWriteLock {
        parms_ref: &parms,
        status_node_ref: CycleStepperStatus {
            stepper_direction: RotationDir::CounterClockwise,
            stepper_step_status: high_until(150),
        },
        clock_reading_ref: &clock,
    };
    assert!(!lock.can_do_stuff());
    lock.update();
    assert!(lock.status_node_ref.stepper_direction == RotationDir::CounterClockwise);
    assert!(lock.status_node_ref.stepper_step_status.stage == StepperStepCycleState::InCycle(
        StepperStepCycleInCycleStatus { state: StepperStepCycleInCycleStage::Low, until: 700 }
    ));
    assert!(!lock.can_do_stuff());
}
