use vstd::prelude::*;
use crate::base::common_types::digital_value::DigitalValue;
use crate::base::common_types::timing::{Duration, Time};
use crate::base::nodes::base::node::NodeRef;

verus! {

/// The position of a stepper motor, in steps.
pub type StepperPosition = i64;

/// The stage of the step pin within a step cycle.
#[derive(Clone, Copy, PartialEq, Eq, Structural)]
pub enum StepperStepPinStatus {
    High,
    Low,
    Awaiting,
}

/// A direction of rotation.
#[derive(Clone, Copy, PartialEq, Eq, Structural)]
pub enum RotationDir {
    Clockwise,
    CounterClockwise,
}

/// A speed of a stepper motor, as the duration of one step cycle in microseconds.
#[derive(Clone, Copy, PartialEq, Eq, Structural)]
pub struct StepperSpeed {
    pub step_cycle_duration: u64,
}

impl StepperSpeed {
    /// The speed whose step cycle lasts `step_cycle_duration` microseconds.
    pub fn from_step_cycle_duration(step_cycle_duration: u64) -> (s: Self)
        ensures
            s.step_cycle_duration == step_cycle_duration,
    {
        StepperSpeed { step_cycle_duration }
    }

    /// The speed of a motor at rest: the longest step cycle.
    pub fn stopped() -> (s: Self)
        ensures
            s.step_cycle_duration == u64::MAX,
    {
        StepperSpeed { step_cycle_duration: u64::MAX }
    }
}

/// Drives a stepper motor through a step signal and a direction signal.
pub struct StepperDriver<'a> {
    pub parms: StepperParm,
    pub status_node: NodeRef<'a, StepperStatus>,
    pub step_signal_node: NodeRef<'a, DigitalValue>,
    pub dir_signal_node: NodeRef<'a, DigitalValue>,
}

/// The position of a stepper motor, the stage of its step pin, and when that stage
/// began.
#[derive(Clone, Copy, PartialEq, Eq, Structural)]
pub struct StepperStatus {
    pub position: StepperPosition,
    pub stepper_step_status: StepperStepPinStatus,
    pub status_last_update: Time,
}

/// The least time the step pin stays high and low, and the microstepping factor.
#[derive(Clone, Copy, PartialEq, Eq, Structural)]
pub struct StepperParm {
    pub min_upstep_time_us: Duration,
    pub min_downstep_time_us: Duration,
    pub microstepping_factor: u8,
}

impl Default for StepperParm {
    /// Half a millisecond high and low, no microstepping.
    fn default() -> (p: Self)
        ensures
            p.min_upstep_time_us == 500,
            p.min_downstep_time_us == 500,
            p.microstepping_factor == 1,
    {
        Self { min_upstep_time_us: 500u64, min_downstep_time_us: 500u64, microstepping_factor: 1 }
    }
}

impl<'a> StepperDriver<'a> {
    pub fn new(
        step_signal_node: NodeRef<'a, DigitalValue>,
        dir_signal_node: NodeRef<'a, DigitalValue>,
        status_node: NodeRef<'a, StepperStatus>,
        parms: StepperParm,
    ) -> (d: Self)
        ensures
            d.parms == parms,
            d.status_node == status_node,
            d.step_signal_node == step_signal_node,
            d.dir_signal_node == dir_signal_node,
    {
        StepperDriver { parms, status_node, step_signal_node, dir_signal_node }
    }
}

} // verus!
