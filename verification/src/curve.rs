//! The temperature-to-duty curve: a piecewise-linear map that saturates at
//! both ends.

use crate::curve_laws::{
    lemma_interpolates_between, lemma_saturates_above, lemma_saturates_below,
    lemma_value_in_range,
};
use crate::curve_model::{
    curve_ok, curve_value, disorder, duties, interpolate, lemma_disorder, lemma_scan,
    lemma_share_bounds, pair_ordered, points, raw_values, rejection, scan, strict_rejection,
    strictly_between, temperatures, CurvePoint,
};
use crate::error::ConfigError;
use crate::units::{Celsius, FULL_DUTY, PWM};
use vstd::prelude::*;

verus! {

/// A temperature-to-duty curve: at least one breakpoint, with strictly
/// increasing temperatures and duties that never decrease.
#[derive(Debug)]
pub struct Config {
    temp2pwm: Vec<(Celsius, PWM)>,
}

impl View for Config {
    type V = Seq<CurvePoint>;

    closed spec fn view(&self) -> Seq<CurvePoint> {
        Seq::new(
            self.temp2pwm@.len(),
            |i: int| CurvePoint { temp: self.temp2pwm@[i].0@, duty: self.temp2pwm@[i].1@ },
        )
    }
}

impl Config {
    #[verifier::type_invariant]
    spec fn valid(self) -> bool {
        curve_ok(self@)
    }

    /// Builds a curve from temperatures and duties paired by position, kept in
    /// the order given. The lists must be equally long and not empty, the
    /// temperatures strictly increasing and the duties never decreasing.
    pub fn new(temps: Vec<Celsius>, pwms: Vec<PWM>) -> (r: Result<Config, ConfigError>)
        ensures
            match r {
                Ok(curve) => {
                    &&& rejection(temperatures(temps@), duties(pwms@)) is None
                    &&& curve@ == points(temperatures(temps@), duties(pwms@))
                    &&& curve_ok(curve@)
                },
                Err(e) => rejection(temperatures(temps@), duties(pwms@)) == Some(e),
            },
    {
        let ghost pts = points(temperatures(temps@), duties(pwms@));
        if temps.len() != pwms.len() {
            return Err(ConfigError::LengthMismatch);
        }
        if temps.len() == 0 {
            return Err(ConfigError::EmptyCurve);
        }
        let n: usize = temps.len();
        let mut curve: Vec<(Celsius, PWM)> = Vec::new();
        let mut i: usize = 0;
        while i < n
            invariant
                0 < n,
                i <= n,
                n == temps.len(),
                n == pwms.len(),
                curve@.len() == i,
                pts == points(temperatures(temps@), duties(pwms@)),
                forall|j: int|
                    0 <= j < i ==> (#[trigger] curve@[j]).0@ == pts[j].temp && curve@[j].1@
                        == pts[j].duty && 0 <= pts[j].duty <= FULL_DUTY,
                i > 0 ==> disorder(pts, 0) == disorder(pts, i - 1),
            decreases n - i,
        {
            let temp = temps[i];
            let duty = pwms[i];
            let level: u32 = duty.millionths();
            assert(pts[i as int].temp == temp@ && pts[i as int].duty == duty@);
            if i > 0 {
                let (last_temp, last_duty) = curve[i - 1];
                if last_temp.millidegrees >= temp.millidegrees {
                    return Err(ConfigError::NonMonotonicTemperature);
                }
                if last_duty.millionths() > level {
                    return Err(ConfigError::NonMonotonicDuty);
                }
            }
            curve.push((temp, duty));
            i += 1;
        }
        proof {
            lemma_disorder(pts, 0);
            let ghost made = Seq::new(
                curve@.len(),
                |i: int| CurvePoint { temp: curve@[i].0@, duty: curve@[i].1@ },
            );
            assert(made =~= pts);
            assert(curve_ok(made));
        }
        Ok(Config { temp2pwm: curve })
    }

    /// Builds a curve from temperatures and unchecked duty values. Each value
    /// is first held to the range of an output; the lists are then judged as
    /// by [`Config::new`].
    pub fn with_strict_duties(temps: Vec<Celsius>, values: Vec<i64>) -> (r: Result<
        Config,
        ConfigError,
    >)
        ensures
            match r {
                Ok(curve) => {
                    &&& strict_rejection(temperatures(temps@), raw_values(values@)) is None
                    &&& curve@ == points(temperatures(temps@), raw_values(values@))
                    &&& curve_ok(curve@)
                },
                Err(e) => strict_rejection(temperatures(temps@), raw_values(values@)) == Some(e),
            },
    {
        let ghost raw = raw_values(values@);
        let mut pwms: Vec<PWM> = Vec::new();
        let mut i: usize = 0;
        while i < values.len()
            invariant
                i <= values.len(),
                pwms@.len() == i,
                raw == raw_values(values@),
                forall|j: int| 0 <= j < i ==> (#[trigger] pwms@[j])@ == raw[j],
                forall|j: int| 0 <= j < i ==> 0 <= (#[trigger] raw[j]) <= FULL_DUTY,
            decreases values.len() - i,
        {
            match PWM::new(values[i]) {
                Ok(duty) => {
                    pwms.push(duty);
                },
                Err(e) => {
                    assert(!(0 <= raw[i as int] <= FULL_DUTY));
                    return Err(e);
                },
            }
            i += 1;
        }
        assert(duties(pwms@) =~= raw);
        Config::new(temps, pwms)
    }

    /// The duty for a temperature: the first duty at or below the first
    /// breakpoint, the last duty above the last one, the exact duty at a
    /// breakpoint, and between two neighbours the value on the line through
    /// them, rounded down to a whole millionth.
    pub fn evaluate(&self, temp: Celsius) -> (duty: PWM)
        ensures
            curve_ok(self@),
            duty@ == curve_value(self@, temp@),
            self@[0].duty <= duty@ <= self@[self@.len() - 1].duty,
            temp@ <= self@[0].temp ==> duty@ == self@[0].duty,
            temp@ >= self@[self@.len() - 1].temp ==> duty@ == self@[self@.len() - 1].duty,
            forall|i: int| #[trigger]
                strictly_between(self@, i, temp@) ==> duty@ == interpolate(
                    self@[i],
                    self@[i + 1],
                    temp@,
                ) && self@[i].duty <= duty@ <= self@[i + 1].duty,
    {
        proof {
            use_type_invariant(self);
            lemma_value_in_range(self@, temp@);
            if temp@ <= self@[0].temp {
                lemma_saturates_below(self@, temp@);
            }
            if temp@ >= self@[self@.len() - 1].temp {
                lemma_saturates_above(self@, temp@);
            }
            assert forall|i: int| #[trigger] strictly_between(self@, i, temp@) implies curve_value(
                self@,
                temp@,
            ) == interpolate(self@[i], self@[i + 1], temp@) && self@[i].duty <= curve_value(
                self@,
                temp@,
            ) <= self@[i + 1].duty by {
                lemma_interpolates_between(self@, i, temp@);
            }
        }
        let n: usize = self.temp2pwm.len();
        let mut i: usize = 0;
        while i < n && self.temp2pwm[i].0.millidegrees < temp.millidegrees
            invariant
                i <= n,
                n == self.temp2pwm@.len(),
                scan(self@, temp@, 0) == scan(self@, temp@, i as int),
            decreases n - i,
        {
            i += 1;
        }
        if i == 0 {
            self.temp2pwm[0].1
        } else if i == n {
            self.temp2pwm[n - 1].1
        } else {
            let (t0, p0) = self.temp2pwm[i - 1];
            let (t1, p1) = self.temp2pwm[i];
            proof {
                lemma_scan(self@, temp@, 0);
                assert(self@[i - 1].temp < temp@);
                assert(pair_ordered(self@, i - 1));
                lemma_share_bounds(p1@ - p0@, temp@ - t0@, t1@ - t0@);
            }
            let d0: u32 = p0.millionths();
            let d1: u32 = p1.millionths();
            let rise: i128 = (d1 - d0) as i128;
            let offset: i128 = temp.millidegrees as i128 - t0.millidegrees as i128;
            let run: i128 = t1.millidegrees as i128 - t0.millidegrees as i128;
            assert(0 <= rise * offset <= 1_000_000 * 0x1_0000_0000_0000_0000) by (nonlinear_arith)
                requires
                    0 <= rise <= 1_000_000,
                    0 <= offset <= 0x1_0000_0000_0000_0000,
            ;
            let share: i128 = rise * offset / run;
            PWM::new_saturate(d0 as i64 + share as i64)
        }
    }

    /// The number of breakpoints, which is at least one.
    pub fn len(&self) -> (n: usize)
        ensures
            n == self@.len(),
            n >= 1,
    {
        proof {
            use_type_invariant(self);
        }
        self.temp2pwm.len()
    }

    /// The breakpoint at place `i`, counted from the lowest temperature.
    pub fn breakpoint(&self, i: usize) -> (point: (Celsius, PWM))
        requires
            i < self@.len(),
        ensures
            point.0@ == self@[i as int].temp,
            point.1@ == self@[i as int].duty,
    {
        self.temp2pwm[i]
    }
}

} // verus!
