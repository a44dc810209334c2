use vstd::prelude::*;
use crate::base::common_types::digital_value::DigitalValue;
use crate::base::common_types::timing::{Duration, Time};
use crate::base::nodes::stepper::stepper::{StepperPosition, StepperSpeed, StepperStatus, StepperStepPinStatus};
use crate::nodes::stepper::base::StepperParm;

verus! {

/// When the current stage of the step pin ends: after the least high time, the
/// least low time, or, while awaiting, the rest of the step cycle.
pub open spec fn stage_finish_time(parms: StepperParm, status: StepperStatus, speed: StepperSpeed) -> int {
    status.status_last_update + match status.stepper_step_status {
        StepperStepPinStatus::High => parms.min_upstep_duration as int,
        StepperStepPinStatus::Low => parms.min_downstep_duration as int,
        StepperStepPinStatus::Awaiting => speed.step_cycle_duration - (parms.min_upstep_duration
            + parms.min_downstep_duration),
    }
}

/// The step of a finished stage in the direction signal `dir`: a low signal moves
/// up, a high one down.
pub open spec fn step_of(dir: DigitalValue) -> int {
    match dir {
        DigitalValue::Low => 1,
        DigitalValue::High => -1,
    }
}

/// One turn of the controller at `time`: the status, the step signal and the
/// direction signal after it. Once the current stage has finished: from high, the
/// step pin goes low; from low, the position takes the step of the direction
/// signal and the motor awaits; from awaiting, unless the motor is at `setpoint`,
/// the direction signal points to it and the step pin goes high. Each change of
/// stage is dated at the finish time. Before the finish time nothing changes.
pub open spec fn controller_turn(
    parms: StepperParm,
    s0: StepperStatus,
    speed: StepperSpeed,
    setpoint: StepperPosition,
    step: DigitalValue,
    dir: DigitalValue,
    time: int,
) -> (StepperStatus, DigitalValue, DigitalValue) {
    let finish = stage_finish_time(parms, s0, speed);
    if finish > time {
        (s0, step, dir)
    } else {
        match s0.stepper_step_status {
            StepperStepPinStatus::High => (
                StepperStatus {
                    stepper_step_status: StepperStepPinStatus::Low,
                    status_last_update: finish as u64,
                    ..s0
                },
                DigitalValue::Low,
                dir,
            ),
            StepperStepPinStatus::Low => (
                StepperStatus {
                    position: (s0.position + step_of(dir)) as i64,
                    stepper_step_status: StepperStepPinStatus::Awaiting,
                    status_last_update: finish as u64,
                },
                step,
                dir,
            ),
            StepperStepPinStatus::Awaiting => if s0.position == setpoint {
                (s0, step, dir)
            } else {
                (
                    StepperStatus {
                        stepper_step_status: StepperStepPinStatus::High,
                        status_last_update: finish as u64,
                        ..s0
                    },
                    DigitalValue::High,
                    if s0.position < setpoint {
                        DigitalValue::Low
                    } else {
                        DigitalValue::High
                    },
                )
            },
        }
    }
}

/// A turn of the controller cannot overflow: the finish time fits the time line,
/// an awaiting stage fits in the step cycle, and a step keeps the position in range.
pub open spec fn turn_fits(parms: StepperParm, s0: StepperStatus, speed: StepperSpeed, dir: DigitalValue) -> bool {
    &&& s0.stepper_step_status == StepperStepPinStatus::Awaiting ==> parms.min_upstep_duration
        + parms.min_downstep_duration <= speed.step_cycle_duration
    &&& stage_finish_time(parms, s0, speed) <= u64::MAX
    &&& s0.stepper_step_status == StepperStepPinStatus::Low ==> i64::MIN <= s0.position + step_of(dir)
        <= i64::MAX
}

/// A controller turn before the current stage has lasted its time changes nothing:
/// a high step pin stays for the stepper's least upstep after its last update, a
/// low one for its least downstep, and a wait lasts the rest of the step cycle.
pub proof fn lemma_turn_waits_for_stage_end(
    parms: StepperParm,
    s0: StepperStatus,
    speed: StepperSpeed,
    setpoint: StepperPosition,
    step: DigitalValue,
    dir: DigitalValue,
    time: int,
)
    requires
        match s0.stepper_step_status {
            StepperStepPinStatus::High => time < s0.status_last_update + parms.min_upstep_duration,
            StepperStepPinStatus::Low => time < s0.status_last_update + parms.min_downstep_duration,
            StepperStepPinStatus::Awaiting => time < s0.status_last_update + speed.step_cycle_duration
                - parms.min_upstep_duration - parms.min_downstep_duration,
        },
    ensures
        controller_turn(parms, s0, speed, setpoint, step, dir, time) == (s0, step, dir),
{
}

/// A controller turn once the current stage has lasted its time moves the step
/// cycle on, dated at the end of the stage: a high step pin goes low, the other
/// signal and the position staying; a low one ends the step, the position moving by
/// one up for a low direction signal and down for a high one, and the motor awaits;
/// a wait away from the set point starts a step toward it, the step pin going high
/// and the direction signal low when the set point is above and high when below; a
/// wait at the set point changes nothing.
pub proof fn lemma_turn_after_stage_end(
    parms: StepperParm,
    s0: StepperStatus,
    speed: StepperSpeed,
    setpoint: StepperPosition,
    step: DigitalValue,
    dir: DigitalValue,
    time: int,
)
    requires
        turn_fits(parms, s0, speed, dir),
    ensures
        ({
            let (s1, step1, dir1) = controller_turn(parms, s0, speed, setpoint, step, dir, time);
            &&& s0.stepper_step_status is High && time >= s0.status_last_update + parms.min_upstep_duration
                ==> {
                &&& s1.stepper_step_status is Low
                &&& s1.status_last_update == s0.status_last_update + parms.min_upstep_duration
                &&& s1.position == s0.position
                &&& step1 == DigitalValue::Low
                &&& dir1 == dir
            }
            &&& s0.stepper_step_status is Low && time >= s0.status_last_update + parms.min_downstep_duration
                ==> {
                &&& s1.stepper_step_status is Awaiting
                &&& s1.status_last_update == s0.status_last_update + parms.min_downstep_duration
                &&& s1.position == s0.position + if dir == DigitalValue::Low {
                    1int
                } else {
                    -1int
                }
                &&& step1 == step
                &&& dir1 == dir
            }
            &&& s0.stepper_step_status is Awaiting && time >= s0.status_last_update + speed.step_cycle_duration
                - parms.min_upstep_duration - parms.min_downstep_duration ==> if s0.position == setpoint {
                (s1, step1, dir1) == (s0, step, dir)
            } else {
                &&& s1.stepper_step_status is High
                &&& s1.status_last_update == s0.status_last_update + speed.step_cycle_duration
                    - parms.min_upstep_duration - parms.min_downstep_duration
                &&& s1.position == s0.position
                &&& step1 == DigitalValue::High
                &&& dir1 == if s0.position < setpoint {
                    DigitalValue::Low
                } else {
                    DigitalValue::High
                }
            }
        }),
{
}

/// A whole step cycle moves the motor one step toward the set point: from awaiting
/// away from the set point, three turns that each come at or after the end of the
/// stage (with the signals left to the controller) bring the motor back to
/// awaiting, one step closer.
pub proof fn lemma_step_cycle_moves_toward_setpoint(
    parms: StepperParm,
    s0: StepperStatus,
    speed: StepperSpeed,
    setpoint: StepperPosition,
    step: DigitalValue,
    dir: DigitalValue,
    t1: int,
    t2: int,
    t3: int,
)
    requires
        s0.stepper_step_status == StepperStepPinStatus::Awaiting,
        s0.position != setpoint,
        turn_fits(parms, s0, speed, dir),
        t1 >= stage_finish_time(parms, s0, speed),
        ({
            let (s1, step1, dir1) = controller_turn(parms, s0, speed, setpoint, step, dir, t1);
            &&& turn_fits(parms, s1, speed, dir1)
            &&& t2 >= stage_finish_time(parms, s1, speed)
            &&& {
                let (s2, step2, dir2) = controller_turn(parms, s1, speed, setpoint, step1, dir1, t2);
                &&& turn_fits(parms, s2, speed, dir2)
                &&& t3 >= stage_finish_time(parms, s2, speed)
            }
        }),
    ensures
        ({
            let (s1, step1, dir1) = controller_turn(parms, s0, speed, setpoint, step, dir, t1);
            let (s2, step2, dir2) = controller_turn(parms, s1, speed, setpoint, step1, dir1, t2);
            let (s3, step3, dir3) = controller_turn(parms, s2, speed, setpoint, step2, dir2, t3);
            &&& s3.stepper_step_status == StepperStepPinStatus::Awaiting
            &&& s3.position == s0.position + if s0.position < setpoint { 1int } else { -1int }
            &&& step3 == DigitalValue::Low
        }),
{
}

/// Moves a stepper motor to a set position at the speed asked for, one step cycle
/// at a time: step pin high, then low, then a wait for the rest of the cycle.
pub struct StepperSpeedController {
    pub parms: StepperParm,
    free_time_cache: Option<(StepperSpeed, Duration)>,
}

impl StepperSpeedController {
    pub closed spec fn spec_parms(&self) -> StepperParm {
        self.parms
    }

    pub fn new(parms: StepperParm) -> (c: Self)
        ensures
            c.spec_parms() == parms,
    {
        Self { parms, free_time_cache: None }
    }

    /// One turn of `controller_turn` at `current_time`.
    pub fn next(
        &self,
        status: &mut StepperStatus,
        speed: &StepperSpeed,
        setpoint: &StepperPosition,
        step_signal: &mut DigitalValue,
        dir_signal: &mut DigitalValue,
        current_time: &Time,
    )
        requires
            turn_fits(self.spec_parms(), *old(status), *speed, *old(dir_signal)),
        ensures
            (*final(status), *final(step_signal), *final(dir_signal)) == controller_turn(
                self.spec_parms(),
                *old(status),
                *speed,
                *setpoint,
                *old(step_signal),
                *old(dir_signal),
                *current_time as int,
            ),
    {
        let stage_duration = match status.stepper_step_status {
            StepperStepPinStatus::High => self.parms.min_upstep_duration,
            StepperStepPinStatus::Low => self.parms.min_downstep_duration,
            StepperStepPinStatus::Awaiting => {
                speed.step_cycle_duration - (self.parms.min_upstep_duration + self.parms.min_downstep_duration)
            },
        };
        let finish_time = status.status_last_update + stage_duration;
        if !(finish_time > *current_time) {
            match status.stepper_step_status {
                StepperStepPinStatus::High => {
                    *step_signal = DigitalValue::Low;
                    status.status_last_update = finish_time;
                    status.stepper_step_status = StepperStepPinStatus::Low;
                },
                StepperStepPinStatus::Low => {
                    status.status_last_update = finish_time;
                    let step: i64 = match *dir_signal {
                        DigitalValue::Low => 1,
                        DigitalValue::High => -1,
                    };
                    status.position = status.position + step;
                    status.stepper_step_status = StepperStepPinStatus::Awaiting;
                },
                StepperStepPinStatus::Awaiting => {
                    if status.position == *setpoint {
                        status.stepper_step_status = StepperStepPinStatus::Awaiting;
                    } else {
                        *dir_signal = if status.position < *setpoint {
                            DigitalValue::Low
                        } else {
                            DigitalValue::High
                        };
                        *step_signal = DigitalValue::High;
                        status.status_last_update = finish_time;
                        status.stepper_step_status = StepperStepPinStatus::High;
                    }
                },
            }
        }
    }
}

} // verus!
