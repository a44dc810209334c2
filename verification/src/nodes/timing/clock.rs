use vstd::prelude::*;
use crate::nodes::timing::base::{Duration, Time};

verus! {

/// A source of the current time.
pub trait TimeGetter: Sized {
    /// `time` is a time the getter `before` can give, becoming `after`. A getter
    /// that does not say otherwise can give any time.
    open spec fn gives_time(before: Self, after: Self, time: Time) -> bool {
        true
    }

    fn get_current_time(&mut self) -> (time: Time)
        ensures
            Self::gives_time(*old(self), *final(self), time),
    ;
}

/// Writes the current time to the clock node.
pub struct ClockProcess<TTimeGetter: TimeGetter> {
    time_getter: TTimeGetter,
}

impl<TTimeGetter: TimeGetter> ClockProcess<TTimeGetter> {
    pub closed spec fn spec_time_getter(&self) -> TTimeGetter {
        self.time_getter
    }

    pub fn new(time_getter: TTimeGetter) -> (c: Self)
        ensures
            c.spec_time_getter() == time_getter,
    {
        Self { time_getter }
    }

    /// Sets the clock to the time the getter gives.
    pub fn resume(&mut self, clock_reading: &mut Time)
        ensures
            TTimeGetter::gives_time(old(self).spec_time_getter(), final(self).spec_time_getter(), *final(clock_reading)),
    {
        let current_time = self.time_getter.get_current_time();
        *clock_reading = current_time;
    }
}

/// Writes the time elapsed since the previous clock reading.
pub struct DeltaTimeProcess {
    previous_time_reading: Option<Time>,
}

impl View for DeltaTimeProcess {
    type V = Option<Time>;

    /// The previous clock reading.
    open spec fn view(&self) -> Option<Time> {
        self.spec_previous()
    }
}

impl DeltaTimeProcess {
    pub closed spec fn spec_previous(&self) -> Option<Time> {
        self.previous_time_reading
    }

    pub fn new() -> (d: Self)
        ensures
            d@ is None,
    {
        Self { previous_time_reading: None }
    }

    /// With a previous reading, writes the time from it to `clock_node`; then keeps
    /// `clock_node` as the previous reading. Time does not run backwards, and the
    /// span fits in a signed duration.
    pub fn resume(&mut self, clock_node: &Time, output: &mut Duration)
        requires
            old(self)@ matches Some(prev) ==> prev <= *clock_node && *clock_node - prev <= i64::MAX,
        ensures
            final(self)@ == Some(*clock_node),
            old(self)@ matches Some(prev) ==> *final(output) == *clock_node - prev,
            old(self)@ is None ==> *final(output) == *old(output),
    {
        let current_time_reading: Time = *clock_node;
        if let Some(previous_time_reading) = self.previous_time_reading {
            *output = (current_time_reading - previous_time_reading) as i64;
        }
        self.previous_time_reading = Some(current_time_reading);
    }
}

} // verus!
