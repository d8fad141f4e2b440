//! Temperatures and duty cycles as fixed-point integers.

use crate::error::ConfigError;
use vstd::prelude::*;

verus! {

/// The duty value of an output that is held high for the whole period.
pub const FULL_DUTY: u32 = 1_000_000;

/// A temperature in thousandths of a degree Celsius.
#[derive(Clone, Copy, Debug, PartialEq, Eq, Structural, PartialOrd, Ord)]
pub struct Celsius {
    pub millidegrees: i64,
}

impl View for Celsius {
    type V = int;

    open spec fn view(&self) -> int {
        self.millidegrees as int
    }
}

/// A PWM duty cycle in millionths of the period, never above [`FULL_DUTY`].
#[derive(Clone, Copy, Debug, PartialEq, Eq, Structural, PartialOrd, Ord)]
pub struct PWM {
    millionths: u32,
}

impl View for PWM {
    type V = int;

    closed spec fn view(&self) -> int {
        self.millionths as int
    }
}

/// The value nearest to `value` among the duties that an output can have.
pub open spec fn saturated(value: int) -> int {
    if value < 0 {
        0
    } else if value > FULL_DUTY {
        FULL_DUTY as int
    } else {
        value
    }
}

impl PWM {
    #[verifier::type_invariant]
    spec fn in_range(self) -> bool {
        self.millionths <= FULL_DUTY
    }

    /// Strict construction: a value outside `0..=FULL_DUTY` is refused.
    pub fn new(value: i64) -> (r: Result<PWM, ConfigError>)
        ensures
            match r {
                Ok(duty) => 0 <= value <= FULL_DUTY && duty@ == value,
                Err(e) => !(0 <= value <= FULL_DUTY) && e == ConfigError::InvalidDutyValue,
            },
    {
        if 0 <= value && value <= FULL_DUTY as i64 {
            Ok(PWM { millionths: value as u32 })
        } else {
            Err(ConfigError::InvalidDutyValue)
        }
    }

    /// Saturating construction: a value outside the range becomes the nearest
    /// end of it.
    #[must_use]
    pub fn new_saturate(value: i64) -> (duty: PWM)
        ensures
            duty@ == saturated(value as int),
    {
        if value < 0 {
            PWM { millionths: 0 }
        } else if value > FULL_DUTY as i64 {
            PWM { millionths: FULL_DUTY }
        } else {
            PWM { millionths: value as u32 }
        }
    }

    /// The duty in millionths of the period.
    pub fn millionths(&self) -> (m: u32)
        ensures
            m == self@,
            m <= FULL_DUTY,
    {
        proof {
            use_type_invariant(self);
        }
        self.millionths
    }
}

} // verus!
