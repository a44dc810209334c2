use vstd::prelude::*;
use crate::base::common_types::timing::{Duration, Time};
use crate::base::nodes::base::node::{Node, NodeRef};

verus! {

/// A reading of the clock: the current time and the time since the reading before.
#[derive(Clone, Copy, PartialEq, Eq, Structural)]
pub struct ClockReading {
    pub current_time: Time,
    pub delta_time: Duration,
}

/// A node holding the clock reading.
pub type ClockNode = Node<ClockReading>;

/// A reference to the clock node.
pub type ClockNodeRef<'a> = NodeRef<'a, ClockReading>;

/// A source of the current time.
pub trait TimeGetter: Sized {
    /// `time` is a time the getter `before` can give, becoming `after`. A getter
    /// that does not say otherwise can give any time.
    open spec fn gives_time(before: Self, after: Self, time: Time) -> bool {
        true
    }

    fn get_current_time(&mut self) -> (time: Time)
        ensures
            Self::gives_time(*old(self), *final(self), time),
    ;
}

impl ClockReading {
    /// The reading at `current_time` that follows this one: the time moves to it and
    /// the delta is the time passed since this reading.
    pub fn advance(&mut self, current_time: Time)
        requires
            old(self).current_time <= current_time,
        ensures
            final(self).current_time == current_time,
            final(self).delta_time == current_time - old(self).current_time,
    {
        let delta_time = current_time - self.current_time;
        self.current_time = current_time;
        self.delta_time = delta_time;
    }
}

/// Keeps the clock node up to date with a source of time.
pub struct ClockProcess<'a, TTimeGetter: TimeGetter> {
    time_getter: TTimeGetter,
    clock_node_ref: ClockNodeRef<'a>,
}

impl<'a, TTimeGetter: TimeGetter> ClockProcess<'a, TTimeGetter> {
    pub closed spec fn spec_clock_node(&self) -> ClockNodeRef<'a> {
        self.clock_node_ref
    }

    pub closed spec fn spec_time_getter(&self) -> TTimeGetter {
        self.time_getter
    }

    pub fn new(time_getter: TTimeGetter, clock_node: &'a ClockNode) -> (c: Self)
        ensures
            c.spec_clock_node().kernel() == clock_node,
            c.spec_time_getter() == time_getter,
    {
        let clock_node_ref = clock_node.make_ref();
        Self { time_getter, clock_node_ref }
    }

    /// A reference to the clock node.
    pub fn clock_node(&self) -> (r: ClockNodeRef<'a>)
        ensures
            r.kernel() == self.spec_clock_node().kernel(),
    {
        self.clock_node_ref.clone()
    }

    /// The current time, as the time getter gives it.
    pub fn read_time(&mut self) -> (t: Time)
        ensures
            final(self).spec_clock_node() == old(self).spec_clock_node(),
            TTimeGetter::gives_time(old(self).spec_time_getter(), final(self).spec_time_getter(), t),
    {
        self.time_getter.get_current_time()
    }
}

} // verus!
