use vstd::prelude::*;
use crate::base::common_types::timing::{Duration, Time};
use crate::base::nodes::timing::clock::ClockReading;

verus! {

/// The position of a stepper motor, in steps.
#[derive(Clone, Copy, PartialEq, Eq, Structural)]
pub struct StepperPosition(pub i64);

/// When the current stage began, and when it ends if that is known.
#[derive(Clone, Copy, PartialEq, Eq, Structural)]
pub struct StageTimeInfo {
    pub current_stage_start: Time,
    pub current_stage_end: Option<Time>,
}

/// The level of the step pin within a step cycle.
#[derive(Clone, Copy, PartialEq, Eq, Structural)]
pub enum StepperStepCycleInCycleStage {
    High,
    Low,
}

/// The mark of a finished step cycle.
#[derive(Clone, Copy, PartialEq, Eq, Structural)]
pub struct Finished;

/// The level of the step pin and until when it holds.
#[derive(Clone, Copy, PartialEq, Eq, Structural)]
pub struct StepperStepCycleInCycleStatus {
    pub state: StepperStepCycleInCycleStage,
    pub until: Time,
}

/// How long the step pin stays high and low within a step cycle.
#[derive(Clone, Copy, PartialEq, Eq, Structural)]
pub struct StepperStepCycleInCycleParms {
    pub high_duration: Duration,
    pub low_duration: Duration,
}

/// Whether a step cycle is under way, and at which level, or the motor awaits a step.
#[derive(Clone, Copy, PartialEq, Eq, Structural)]
pub enum StepperStepCycleState {
    InCycle(StepperStepCycleInCycleStatus),
    Awaiting,
}

/// The state of the step cycle and the timing of its stage.
#[derive(Clone, Copy, PartialEq, Eq, Structural)]
pub struct StepperStepCycleStatus {
    pub stage: StepperStepCycleState,
    pub time_info: StageTimeInfo,
}

/// A direction of rotation.
#[derive(Clone, Copy, PartialEq, Eq, Structural)]
pub enum RotationDir {
    Clockwise,
    CounterClockwise,
}

/// The direction of a stepper motor and the state of its step cycle.
#[derive(Clone, Copy, PartialEq, Eq, Structural)]
pub struct StepperStatus {
    pub stepper_direction: RotationDir,
    pub stepper_step_status: StepperStepCycleStatus,
}

/// The least time the step pin stays high and low, and the steps of a revolution.
#[derive(Clone, Copy, PartialEq, Eq, Structural)]
pub struct StepperParm {
    pub min_upstep_duration: Duration,
    pub min_downstep_duration: Duration,
    pub steps_per_rev: u16,
}

impl Default for StepperParm {
    /// Half a millisecond high and low, 200 steps a revolution.
    fn default() -> (p: Self)
        ensures
            p.min_upstep_duration == 500,
            p.min_downstep_duration == 500,
            p.steps_per_rev == 200,
    {
        Self { min_upstep_duration: 500u64, min_downstep_duration: 500u64, steps_per_rev: 200u16 }
    }
}

/// The status and parameters of a stepper motor.
#[derive(Clone, Copy, PartialEq, Eq, Structural)]
pub struct StepperData {
    pub stepper_status: StepperStatus,
    pub stepper_parameters: StepperParm,
}

/// The step cycle at time `t`: a high stage that has ended turns low, from `t` until
/// `t` plus the low duration; a low stage that has ended gives way to awaiting a
/// step, from `t` on; a stage that has not ended, and awaiting, stay as they are.
pub open spec fn step_cycle_update(
    s: StepperStepCycleStatus,
    p: StepperStepCycleInCycleParms,
    t: Time,
) -> StepperStepCycleStatus {
    match s.stage {
        StepperStepCycleState::InCycle(c) => if c.until <= t {
            match c.state {
                StepperStepCycleInCycleStage::High => StepperStepCycleStatus {
                    stage: StepperStepCycleState::InCycle(
                        StepperStepCycleInCycleStatus {
                            state: StepperStepCycleInCycleStage::Low,
                            until: (t + p.low_duration) as Time,
                        },
                    ),
                    time_info: StageTimeInfo {
                        current_stage_start: t,
                        current_stage_end: Some((t + p.low_duration) as Time),
                    },
                },
                StepperStepCycleInCycleStage::Low => StepperStepCycleStatus {
                    stage: StepperStepCycleState::Awaiting,
                    time_info: StageTimeInfo { current_stage_start: t, current_stage_end: None },
                },
            }
        } else {
            s
        },
        StepperStepCycleState::Awaiting => s,
    }
}

/// The end of the low stage that follows a high stage ending by `t` fits in a time.
pub open spec fn step_cycle_update_fits(s: StepperStepCycleStatus, p: StepperStepCycleInCycleParms, t: Time) -> bool {
    s.stage matches StepperStepCycleState::InCycle(c) && c.state is High && c.until <= t
        ==> t + p.low_duration <= Time::MAX
}

/// Moves the step cycle on to `current_time`, as `step_cycle_update` says.
pub fn update_stepper_step_cycle_status(
    stepper_step_cycle_status: &mut StepperStepCycleStatus,
    stepper_step_cycle_in_cycle_parms: &StepperStepCycleInCycleParms,
    current_time: &Time,
)
    requires
        step_cycle_update_fits(*old(stepper_step_cycle_status), *stepper_step_cycle_in_cycle_parms, *current_time),
    ensures
        *final(stepper_step_cycle_status) == step_cycle_update(
            *old(stepper_step_cycle_status),
            *stepper_step_cycle_in_cycle_parms,
            *current_time,
        ),
{
    let t = *current_time;
    let new_status = match stepper_step_cycle_status.stage {
        StepperStepCycleState::InCycle(in_cycle_status) => {
            if in_cycle_status.until <= t {
                match in_cycle_status.state {
                    StepperStepCycleInCycleStage::High => {
                        let end = t + stepper_step_cycle_in_cycle_parms.low_duration;
                        Some(
                            StepperStepCycleStatus {
                                stage: StepperStepCycleState::InCycle(
                                    StepperStepCycleInCycleStatus { state: StepperStepCycleInCycleStage::Low, until: end },
                                ),
                                time_info: StageTimeInfo { current_stage_start: t, current_stage_end: Some(end) },
                            },
                        )
                    },
                    StepperStepCycleInCycleStage::Low => Some(
                        StepperStepCycleStatus {
                            stage: StepperStepCycleState::Awaiting,
                            time_info: StageTimeInfo { current_stage_start: t, current_stage_end: None },
                        },
                    ),
                }
            } else {
                None
            }
        },
        StepperStepCycleState::Awaiting => None,
    };
    if let Some(new_status) = new_status {
        *stepper_step_cycle_status = new_status;
    }
}

/// The in-cycle durations of a stepper: high for its least upstep, low for its
/// least downstep.
pub open spec fn in_cycle_parms(p: StepperParm) -> StepperStepCycleInCycleParms {
    StepperStepCycleInCycleParms { high_duration: p.min_upstep_duration, low_duration: p.min_downstep_duration }
}

/// The step cycle of a stepper at time `t`: a high stage that has ended turns into
/// a low stage from `t` lasting the stepper's least downstep; a low stage that has
/// ended gives way to awaiting from `t`; a stage that has not ended, and awaiting,
/// stay.
pub proof fn lemma_stepper_step_cycle_update(p: StepperParm, s: StepperStepCycleStatus, t: Time)
    ensures
        ({
            let after = step_cycle_update(s, in_cycle_parms(p), t);
            &&& s.stage is InCycle && s.stage->0.state is High && s.stage->0.until <= t ==> {
                &&& after.stage == StepperStepCycleState::InCycle(
                    StepperStepCycleInCycleStatus {
                        state: StepperStepCycleInCycleStage::Low,
                        until: (t + p.min_downstep_duration) as Time,
                    },
                )
                &&& after.time_info.current_stage_start == t
                &&& after.time_info.current_stage_end == Some((t + p.min_downstep_duration) as Time)
            }
            &&& s.stage is InCycle && s.stage->0.state is Low && s.stage->0.until <= t ==> {
                &&& after.stage is Awaiting
                &&& after.time_info.current_stage_start == t
                &&& after.time_info.current_stage_end is None
            }
            &&& !(s.stage is InCycle && s.stage->0.until <= t) ==> after == s
        }),
{
}

/// A stepper's status, held for writing, with its parameters and the clock reading
/// it is updated to; the holder puts the status back into its node when done.
pub struct StepperDriverWriteLock<'a> {
    pub parms_ref: &'a StepperParm,
    pub status_node_ref: StepperStatus,
    pub clock_reading_ref: &'a ClockReading,
}

impl<'a> StepperDriverWriteLock<'a> {
    /// Moves the step cycle of the status on to the time of the clock reading, with
    /// the stepper's least upstep and downstep as the stage durations; the
    /// direction stays.
    pub fn update(&mut self)
        requires
            step_cycle_update_fits(
                old(self).status_node_ref.stepper_step_status,
                in_cycle_parms(*old(self).parms_ref),
                old(self).clock_reading_ref.current_time,
            ),
        ensures
            final(self).parms_ref == old(self).parms_ref,
            final(self).clock_reading_ref == old(self).clock_reading_ref,
            ({
                let s = old(self).status_node_ref.stepper_step_status;
                let t = old(self).clock_reading_ref.current_time;
                let after = final(self).status_node_ref.stepper_step_status;
                &&& s.stage is InCycle && s.stage->0.state is High && s.stage->0.until <= t ==> after.stage
                    == StepperStepCycleState::InCycle(
                    StepperStepCycleInCycleStatus {
                        state: StepperStepCycleInCycleStage::Low,
                        until: (t + old(self).parms_ref.min_downstep_duration) as Time,
                    },
                ) && after.time_info.current_stage_start == t
                &&& s.stage is InCycle && s.stage->0.state is Low && s.stage->0.until <= t ==> after.stage
                    is Awaiting && after.time_info.current_stage_start == t
                &&& !(s.stage is InCycle && s.stage->0.until <= t) ==> after == s
            }),
            final(self).status_node_ref.stepper_direction == old(self).status_node_ref.stepper_direction,
            final(self).status_node_ref.stepper_step_status == step_cycle_update(
                old(self).status_node_ref.stepper_step_status,
                in_cycle_parms(*old(self).parms_ref),
                old(self).clock_reading_ref.current_time,
            ),
    {
        let parms = StepperStepCycleInCycleParms {
            high_duration: self.parms_ref.min_upstep_duration,
            low_duration: self.parms_ref.min_downstep_duration,
        };
        let current_time = self.clock_reading_ref.current_time;
        update_stepper_step_cycle_status(&mut self.status_node_ref.stepper_step_status, &parms, &current_time);
    }

    /// Whether the stepper may start a step: no step cycle is under way.
    pub fn can_do_stuff(&self) -> (r: bool)
        ensures
            r == (self.status_node_ref.stepper_step_status.stage is Awaiting),
    {
        match self.status_node_ref.stepper_step_status.stage {
            StepperStepCycleState::InCycle(_) => false,
            StepperStepCycleState::Awaiting => true,
        }
    }
}

} // verus!
