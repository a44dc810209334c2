use vstd::prelude::*;
use vstd::std_specs::convert::FromSpecImpl;

verus! {

/// The level of a digital signal.
#[derive(PartialEq, Eq, Structural, Clone, Copy)]
pub enum DigitalValue {
    High,
    Low,
}

/// The level that a boolean stands for: `true` is high.
pub open spec fn level_of(value: bool) -> DigitalValue {
    if value {
        DigitalValue::High
    } else {
        DigitalValue::Low
    }
}

/// Whether a level is high.
pub open spec fn is_high(value: DigitalValue) -> bool {
    value == DigitalValue::High
}

impl From<bool> for DigitalValue {
    fn from(value: bool) -> (r: Self) {
        match value {
            true => DigitalValue::High,
            false => DigitalValue::Low,
        }
    }
}

impl FromSpecImpl<bool> for DigitalValue {
    open spec fn obeys_from_spec() -> bool {
        true
    }

    open spec fn from_spec(value: bool) -> DigitalValue {
        level_of(value)
    }
}

impl From<DigitalValue> for bool {
    fn from(value: DigitalValue) -> (r: bool) {
        match value {
            DigitalValue::High => true,
            DigitalValue::Low => false,
        }
    }
}

impl FromSpecImpl<DigitalValue> for bool {
    open spec fn obeys_from_spec() -> bool {
        true
    }

    open spec fn from_spec(value: DigitalValue) -> bool {
        is_high(value)
    }
}

/// A boolean turned into a level and back is the same boolean, and a level
/// turned into a boolean and back is the same level.
pub proof fn lemma_digital_value_round_trip(b: bool, v: DigitalValue)
    ensures
        is_high(level_of(b)) == b,
        level_of(is_high(v)) == v,
{
}

} // verus!
