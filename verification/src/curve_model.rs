//! The mathematical model of a temperature-to-duty curve: its points, what
//! makes it valid, why a list of points is refused and the duty it gives for
//! a temperature.

use crate::error::ConfigError;
use crate::units::{Celsius, FULL_DUTY, PWM};
use vstd::prelude::*;

verus! {

/// One breakpoint of a curve, as mathematical integers: a temperature in
/// thousandths of a degree and a duty in millionths of the period.
pub ghost struct CurvePoint {
    pub temp: int,
    pub duty: int,
}

/// The temperatures of a list, as mathematical integers.
pub open spec fn temperatures(temps: Seq<Celsius>) -> Seq<int> {
    temps.map_values(|t: Celsius| t@)
}

/// The duties of a list, as mathematical integers.
pub open spec fn duties(pwms: Seq<PWM>) -> Seq<int> {
    pwms.map_values(|p: PWM| p@)
}

/// Unchecked duty values, as mathematical integers.
pub open spec fn raw_values(values: Seq<i64>) -> Seq<int> {
    values.map_values(|v: i64| v as int)
}

/// The points that pair each temperature with the duty at the same place.
pub open spec fn points(temps: Seq<int>, duties: Seq<int>) -> Seq<CurvePoint> {
    Seq::new(temps.len(), |i: int| CurvePoint { temp: temps[i], duty: duties[i] })
}

/// Every duty is one that an output can have.
pub open spec fn duties_in_range(pts: Seq<CurvePoint>) -> bool {
    forall|i: int| 0 <= i < pts.len() ==> 0 <= (#[trigger] pts[i]).duty <= FULL_DUTY
}

/// From the point at `i` to the next the temperature strictly increases and
/// the duty does not decrease.
pub open spec fn pair_ordered(pts: Seq<CurvePoint>, i: int) -> bool {
    pts[i].temp < pts[i + 1].temp && pts[i].duty <= pts[i + 1].duty
}

/// Every point and its successor are in order.
pub open spec fn ordered(pts: Seq<CurvePoint>) -> bool {
    forall|i: int| 0 <= i < pts.len() - 1 ==> #[trigger] pair_ordered(pts, i)
}

/// The validity of a curve: it has a point, its duties are in range and its
/// points are ordered.
pub open spec fn curve_ok(pts: Seq<CurvePoint>) -> bool {
    &&& pts.len() >= 1
    &&& duties_in_range(pts)
    &&& ordered(pts)
}

/// The ordering rule that the first offending pair of neighbours breaks,
/// looking from the pair that starts at `from`; `None` if every pair from
/// there on is in order. Within a pair the temperatures are judged first.
pub open spec fn disorder(pts: Seq<CurvePoint>, from: int) -> Option<ConfigError>
    decreases pts.len() - from,
{
    if from + 1 >= pts.len() {
        None
    } else if pts[from].temp >= pts[from + 1].temp {
        Some(ConfigError::NonMonotonicTemperature)
    } else if pts[from].duty > pts[from + 1].duty {
        Some(ConfigError::NonMonotonicDuty)
    } else {
        disorder(pts, from + 1)
    }
}

/// Why two lists make no curve; `None` if they make one.
pub open spec fn rejection(temps: Seq<int>, duties: Seq<int>) -> Option<ConfigError> {
    if temps.len() != duties.len() {
        Some(ConfigError::LengthMismatch)
    } else if temps.len() == 0 {
        Some(ConfigError::EmptyCurve)
    } else {
        disorder(points(temps, duties), 0)
    }
}

/// Some value of the list is no duty that an output can have.
pub open spec fn has_invalid_duty(values: Seq<int>) -> bool {
    exists|i: int| 0 <= i < values.len() && !(0 <= #[trigger] values[i] <= FULL_DUTY)
}

/// Why a list of temperatures and a list of unchecked duty values make no
/// curve; `None` if they make one. The duty values are judged first.
pub open spec fn strict_rejection(temps: Seq<int>, values: Seq<int>) -> Option<ConfigError> {
    if has_invalid_duty(values) {
        Some(ConfigError::InvalidDutyValue)
    } else {
        rejection(temps, values)
    }
}

/// The index of the first point from `from` on whose temperature is at or
/// above `x`, or the number of points if there is none.
pub open spec fn scan(pts: Seq<CurvePoint>, x: int, from: int) -> int
    decreases pts.len() - from,
{
    if from < pts.len() && pts[from].temp < x {
        scan(pts, x, from + 1)
    } else {
        from
    }
}

/// The index of the first point whose temperature is at or above `x`, or the
/// number of points if `x` is above them all.
pub open spec fn first_at_or_above(pts: Seq<CurvePoint>, x: int) -> int {
    scan(pts, x, 0)
}

/// The duty at `x` on the line through `p0` and `p1`, rounded down to a whole
/// millionth.
pub open spec fn interpolate(p0: CurvePoint, p1: CurvePoint, x: int) -> int {
    p0.duty + ((p1.duty - p0.duty) * (x - p0.temp)) / (p1.temp - p0.temp)
}

/// The duty that a curve gives for the temperature `x`: the first duty at or
/// below the first point, the last duty above the last point, and between two
/// neighbours the value on the line through them.
pub open spec fn curve_value(pts: Seq<CurvePoint>, x: int) -> int {
    let i = first_at_or_above(pts, x);
    if i == 0 {
        pts[0].duty
    } else if i == pts.len() {
        pts[pts.len() - 1].duty
    } else {
        interpolate(pts[i - 1], pts[i], x)
    }
}

/// What `scan` finds: every point from `from` up to the result lies below
/// `x`, and the point at the result, if there is one, does not.
pub proof fn lemma_scan(pts: Seq<CurvePoint>, x: int, from: int)
    requires
        0 <= from <= pts.len(),
    ensures
        from <= scan(pts, x, from) <= pts.len(),
        forall|j: int| from <= j < scan(pts, x, from) ==> (#[trigger] pts[j]).temp < x,
        scan(pts, x, from) < pts.len() ==> pts[scan(pts, x, from)].temp >= x,
    decreases pts.len() - from,
{
    if from < pts.len() && pts[from].temp < x {
        lemma_scan(pts, x, from + 1);
    }
}

/// The share `rise * offset / run` of a rise lies between nothing and the
/// whole rise while the offset lies within the run, and is the whole rise at
/// its end.
pub proof fn lemma_share_bounds(rise: int, offset: int, run: int)
    requires
        0 <= rise,
        0 <= offset <= run,
        0 < run,
    ensures
        0 <= (rise * offset) / run <= rise,
        offset == 0 ==> (rise * offset) / run == 0,
        offset == run ==> (rise * offset) / run == rise,
{
    vstd::arithmetic::mul::lemma_mul_nonnegative(rise, offset);
    vstd::arithmetic::div_mod::lemma_div_pos_is_pos(rise * offset, run);
    vstd::arithmetic::mul::lemma_mul_inequality(offset, run, rise);
    vstd::arithmetic::mul::lemma_mul_is_commutative(rise, offset);
    vstd::arithmetic::mul::lemma_mul_is_commutative(rise, run);
    vstd::arithmetic::div_mod::lemma_div_is_ordered(rise * offset, rise * run, run);
    vstd::arithmetic::div_mod::lemma_div_multiples_vanish(rise, run);
    if offset == 0 {
        vstd::arithmetic::mul::lemma_mul_basics(rise);
    }
}

/// Every pair of neighbours from `from` on is in order exactly when no
/// disorder is found from there.
pub proof fn lemma_disorder(pts: Seq<CurvePoint>, from: int)
    requires
        0 <= from,
    ensures
        disorder(pts, from) is None <==> forall|i: int|
            from <= i < pts.len() - 1 ==> #[trigger] pair_ordered(pts, i),
    decreases pts.len() - from,
{
    if from + 1 < pts.len() {
        lemma_disorder(pts, from + 1);
        if pair_ordered(pts, from) {
            if disorder(pts, from) is None {
                assert forall|i: int| from <= i < pts.len() - 1 implies #[trigger] pair_ordered(
                    pts,
                    i,
                ) by {
                    if i > from {
                        assert(from + 1 <= i);
                    }
                }
            }
        }
    }
}

/// `x` lies strictly between the temperatures of the point at `i` and of the
/// next.
pub open spec fn strictly_between(pts: Seq<CurvePoint>, i: int, x: int) -> bool {
    0 <= i < pts.len() - 1 && pts[i].temp < x < pts[i + 1].temp
}

} // verus!
