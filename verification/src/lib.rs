//! Control and measurement logic for a PWM-driven cooling fan.
//!
//! Temperatures and duty cycles are fixed-point integers, so every rule of
//! the temperature-to-duty curve and of the tachometer is stated and proved
//! over exact arithmetic.

pub mod curve;
pub mod curve_laws;
pub mod curve_model;
pub mod error;
pub mod hardware;
pub mod sensor;
pub mod tacho;
pub mod units;

pub use curve::Config;
pub use error::{ConfigError, SensorError, TimingError};
pub use hardware::{FanHardwareConfig, Polarity, PwmChannel, TachoHardwareConfig};
pub use sensor::parse_temperature;
pub use tacho::{rpm_from_window, PollOutcome, Tacho};
pub use units::{Celsius, FULL_DUTY, PWM};
