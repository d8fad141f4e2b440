//! What is fixed about the fan and its tachometer.

use crate::error::ConfigError;
use vstd::prelude::*;

verus! {

/// The PWM frequency of the reference fan, in hertz.
pub const NOCTUA_PWM_FREQUENCY: u32 = 25_000;

/// The pulses that the tachometer of the reference fan emits per revolution.
pub const NOCTUA_PULSES_PER_REVOLUTION: u8 = 2;

/// A hardware PWM channel of the board.
#[derive(Clone, Copy, Debug, PartialEq, Eq, Structural)]
pub enum PwmChannel {
    Pwm0,
    Pwm1,
    Pwm2,
    Pwm3,
}

/// Which level of the PWM signal counts as active.
#[derive(Clone, Copy, Debug, PartialEq, Eq, Structural)]
pub enum Polarity {
    Normal,
    Inverse,
}

/// How the fan is driven: the PWM frequency in hertz, the channel it is wired
/// to and the polarity of the signal.
#[derive(Clone, Copy, Debug, PartialEq, Eq, Structural)]
pub struct FanHardwareConfig {
    pub freq: u32,
    pub pwm_channel: PwmChannel,
    pub polarity: Polarity,
}

/// How the tachometer is read: the pulses it emits per revolution and the
/// GPIO pin it is wired to.
#[derive(Clone, Copy, Debug, PartialEq, Eq, Structural)]
pub struct TachoHardwareConfig {
    pub pulse_per_revolution: u8,
    pub gpio: u8,
}

impl PwmChannel {
    /// The channel that a selector names, if it names one.
    pub open spec fn of_index(index: u8) -> Option<PwmChannel> {
        if index == 0 {
            Some(PwmChannel::Pwm0)
        } else if index == 1 {
            Some(PwmChannel::Pwm1)
        } else if index == 2 {
            Some(PwmChannel::Pwm2)
        } else if index == 3 {
            Some(PwmChannel::Pwm3)
        } else {
            None
        }
    }

    /// The channel for a selector from 0 to 3; any other selector is refused.
    pub fn from_index(index: u8) -> (r: Result<PwmChannel, ConfigError>)
        ensures
            match r {
                Ok(channel) => Self::of_index(index) == Some(channel),
                Err(e) => index > 3 && e == ConfigError::InvalidChannel,
            },
    {
        match index {
            0 => Ok(PwmChannel::Pwm0),
            1 => Ok(PwmChannel::Pwm1),
            2 => Ok(PwmChannel::Pwm2),
            3 => Ok(PwmChannel::Pwm3),
            _ => Err(ConfigError::InvalidChannel),
        }
    }
}

impl FanHardwareConfig {
    /// The reference fan on the given channel: 25 kHz, normal polarity.
    #[must_use]
    pub fn noctua_fan(pwm_channel: PwmChannel) -> (fan: Self)
        ensures
            fan == (FanHardwareConfig {
                freq: NOCTUA_PWM_FREQUENCY,
                pwm_channel,
                polarity: Polarity::Normal,
            }),
    {
        Self { freq: NOCTUA_PWM_FREQUENCY, pwm_channel, polarity: Polarity::Normal }
    }
}

impl TachoHardwareConfig {
    /// The tachometer of the reference fan on the given pin: two pulses per
    /// revolution.
    #[must_use]
    pub fn noctua_tacho(gpio: u8) -> (tacho: Self)
        ensures
            tacho == (TachoHardwareConfig {
                pulse_per_revolution: NOCTUA_PULSES_PER_REVOLUTION,
                gpio,
            }),
    {
        Self { pulse_per_revolution: NOCTUA_PULSES_PER_REVOLUTION, gpio }
    }
}

} // verus!
