//! The errors that the library reports.

use vstd::prelude::*;

verus! {

/// Why a configuration was refused before any hardware is touched.
#[derive(Clone, Copy, Debug, PartialEq, Eq, Structural)]
pub enum ConfigError {
    /// The temperature list and the duty list differ in length.
    LengthMismatch,
    /// The curve has no point.
    EmptyCurve,
    /// A duty value lies outside the whole range of the output.
    InvalidDutyValue,
    /// Two adjacent temperatures are equal or decreasing.
    NonMonotonicTemperature,
    /// Two adjacent duties are decreasing.
    NonMonotonicDuty,
    /// The channel selector names no PWM channel.
    InvalidChannel,
}

/// Why a sampling window gave no speed reading.
#[derive(Clone, Copy, Debug, PartialEq, Eq, Structural)]
pub enum TimingError {
    /// The window lasted less than one whole second.
    ZeroWindow,
    /// The quotient does not exist or does not fit the reading.
    Unrepresentable,
}

/// Why a temperature sample could not be used.
#[derive(Clone, Copy, Debug, PartialEq, Eq, Structural)]
pub enum SensorError {
    /// The text is not an unsigned decimal number.
    Unparsable,
    /// The number is larger than any temperature the library can hold.
    OutOfRange,
}

} // verus!
