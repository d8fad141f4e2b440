//! What holds of every valid curve and of every attempt to build one.

use crate::curve_model::{
    curve_ok, curve_value, disorder, first_at_or_above, has_invalid_duty, interpolate,
    lemma_disorder, lemma_scan, lemma_share_bounds, ordered, pair_ordered, points, scan,
    strict_rejection, strictly_between, CurvePoint,
};
use crate::error::ConfigError;
use crate::units::FULL_DUTY;
use vstd::prelude::*;

verus! {

/// In an ordered curve a later point has the higher temperature and no lower
/// duty than an earlier one.
pub proof fn lemma_ordered_apart(pts: Seq<CurvePoint>, i: int, j: int)
    requires
        ordered(pts),
        0 <= i <= j < pts.len(),
    ensures
        pts[i].duty <= pts[j].duty,
        i < j ==> pts[i].temp < pts[j].temp,
    decreases j - i,
{
    if i < j {
        lemma_ordered_apart(pts, i, j - 1);
        assert(pair_ordered(pts, j - 1));
    }
}

/// An index that has only lower temperatures before it and none at it is the
/// one that the search finds.
pub proof fn lemma_first_is(pts: Seq<CurvePoint>, x: int, i: int)
    requires
        0 <= i <= pts.len(),
        forall|j: int| 0 <= j < i ==> (#[trigger] pts[j]).temp < x,
        i < pts.len() ==> pts[i].temp >= x,
    ensures
        first_at_or_above(pts, x) == i,
{
    lemma_scan(pts, x, 0);
    let found = scan(pts, x, 0);
    if found < i {
        assert(pts[found].temp < x);
    } else if i < found {
        assert(pts[i].temp < x);
    }
}

/// The share of a rise does not shrink as the offset grows.
pub proof fn lemma_share_monotonic(rise: int, near: int, far: int, run: int)
    requires
        0 <= rise,
        near <= far,
        0 < run,
    ensures
        (rise * near) / run <= (rise * far) / run,
{
    vstd::arithmetic::mul::lemma_mul_inequality(near, far, rise);
    vstd::arithmetic::mul::lemma_mul_is_commutative(rise, near);
    vstd::arithmetic::mul::lemma_mul_is_commutative(rise, far);
    vstd::arithmetic::div_mod::lemma_div_is_ordered(rise * near, rise * far, run);
}

/// Within the segment that ends at the point `i` the line through its two
/// ends stays between their duties, and meets them at the ends.
pub proof fn lemma_segment_bounds(pts: Seq<CurvePoint>, i: int, x: int)
    requires
        ordered(pts),
        0 < i < pts.len(),
        pts[i - 1].temp <= x <= pts[i].temp,
    ensures
        pts[i - 1].duty <= interpolate(pts[i - 1], pts[i], x) <= pts[i].duty,
        x == pts[i - 1].temp ==> interpolate(pts[i - 1], pts[i], x) == pts[i - 1].duty,
        x == pts[i].temp ==> interpolate(pts[i - 1], pts[i], x) == pts[i].duty,
{
    assert(pair_ordered(pts, i - 1));
    lemma_share_bounds(
        pts[i].duty - pts[i - 1].duty,
        x - pts[i - 1].temp,
        pts[i].temp - pts[i - 1].temp,
    );
}

/// At or below the first breakpoint a curve gives the first duty.
pub proof fn lemma_saturates_below(pts: Seq<CurvePoint>, x: int)
    requires
        curve_ok(pts),
        x <= pts[0].temp,
    ensures
        curve_value(pts, x) == pts[0].duty,
{
}

/// At or above the last breakpoint a curve gives the last duty.
pub proof fn lemma_saturates_above(pts: Seq<CurvePoint>, x: int)
    requires
        curve_ok(pts),
        x >= pts[pts.len() - 1].temp,
    ensures
        curve_value(pts, x) == pts[pts.len() - 1].duty,
{
    let last = pts.len() - 1;
    if x == pts[last].temp {
        lemma_value_at_breakpoint(pts, last);
    } else {
        assert forall|j: int| 0 <= j < pts.len() implies (#[trigger] pts[j]).temp < x by {
            lemma_ordered_apart(pts, j, last);
        }
        lemma_first_is(pts, x, pts.len() as int);
    }
}

/// At a breakpoint a curve gives that breakpoint's duty exactly.
pub proof fn lemma_value_at_breakpoint(pts: Seq<CurvePoint>, i: int)
    requires
        curve_ok(pts),
        0 <= i < pts.len(),
    ensures
        first_at_or_above(pts, pts[i].temp) == i,
        curve_value(pts, pts[i].temp) == pts[i].duty,
{
    let x = pts[i].temp;
    assert forall|j: int| 0 <= j < i implies (#[trigger] pts[j]).temp < x by {
        lemma_ordered_apart(pts, j, i);
    }
    lemma_first_is(pts, x, i);
    if i > 0 {
        lemma_ordered_apart(pts, i - 1, i);
        lemma_segment_bounds(pts, i, x);
    }
}

/// Strictly between two neighbouring breakpoints a curve gives the value on
/// the line through them, rounded down to a whole millionth, and that value
/// lies between their duties.
pub proof fn lemma_interpolates_between(pts: Seq<CurvePoint>, i: int, x: int)
    requires
        curve_ok(pts),
        strictly_between(pts, i, x),
    ensures
        curve_value(pts, x) == interpolate(pts[i], pts[i + 1], x),
        curve_value(pts, x) == pts[i].duty + ((pts[i + 1].duty - pts[i].duty) * (x
            - pts[i].temp)) / (pts[i + 1].temp - pts[i].temp),
        pts[i].duty <= curve_value(pts, x) <= pts[i + 1].duty,
{
    assert forall|j: int| 0 <= j < i + 1 implies (#[trigger] pts[j]).temp < x by {
        lemma_ordered_apart(pts, j, i);
    }
    lemma_first_is(pts, x, i + 1);
    lemma_segment_bounds(pts, i + 1, x);
}

/// Every value of a curve lies between its first and its last duty, so it is
/// a duty that an output can have.
pub proof fn lemma_value_in_range(pts: Seq<CurvePoint>, x: int)
    requires
        curve_ok(pts),
    ensures
        pts[0].duty <= curve_value(pts, x) <= pts[pts.len() - 1].duty,
        0 <= curve_value(pts, x) <= FULL_DUTY,
{
    let last = pts.len() - 1;
    lemma_ordered_apart(pts, 0, last);
    lemma_scan(pts, x, 0);
    let i = first_at_or_above(pts, x);
    if 0 < i < pts.len() {
        assert(pts[i - 1].temp < x);
        lemma_segment_bounds(pts, i, x);
        lemma_ordered_apart(pts, 0, i - 1);
        lemma_ordered_apart(pts, i, last);
    }
    assert(0 <= pts[0].duty);
    assert(pts[last].duty <= FULL_DUTY);
}

/// A curve never gives a lower duty for a higher temperature.
pub proof fn lemma_monotonic(pts: Seq<CurvePoint>, x: int, y: int)
    requires
        curve_ok(pts),
        x <= y,
    ensures
        curve_value(pts, x) <= curve_value(pts, y),
{
    lemma_scan(pts, x, 0);
    lemma_scan(pts, y, 0);
    lemma_value_in_range(pts, x);
    lemma_value_in_range(pts, y);
    let i = first_at_or_above(pts, x);
    let j = first_at_or_above(pts, y);
    if 0 < i < pts.len() && j < pts.len() {
        // Every point before `i` lies below `x`, so below `y`: `j` is not before `i`.
        if j < i {
            assert(pts[j].temp < x);
        }
        assert(pts[i - 1].temp < x);
        assert(pts[j - 1].temp < y);
        if i == j {
            assert(pair_ordered(pts, i - 1));
            lemma_share_monotonic(
                pts[i].duty - pts[i - 1].duty,
                x - pts[i - 1].temp,
                y - pts[i - 1].temp,
                pts[i].temp - pts[i - 1].temp,
            );
        } else {
            lemma_segment_bounds(pts, i, x);
            lemma_segment_bounds(pts, j, y);
            lemma_ordered_apart(pts, i, j - 1);
        }
    }
}

/// Two lists of integers make a curve exactly when they are equally long and
/// the points they pair are a valid curve: at least one point, every duty in
/// the range of an output, temperatures strictly increasing and duties never
/// decreasing.
pub proof fn lemma_accepted_iff_valid(temps: Seq<int>, values: Seq<int>)
    ensures
        strict_rejection(temps, values) is None <==> temps.len() == values.len() && curve_ok(
            points(temps, values),
        ),
{
    let pts = points(temps, values);
    lemma_disorder(pts, 0);
    if temps.len() == values.len() {
        if has_invalid_duty(values) {
            let i = choose|i: int|
                0 <= i < values.len() && !(0 <= #[trigger] values[i] <= FULL_DUTY);
            assert(pts[i].duty == values[i]);
        } else {
            assert forall|i: int| 0 <= i < pts.len() implies 0 <= (#[trigger] pts[i]).duty
                <= FULL_DUTY by {
                assert(0 <= values[i] <= FULL_DUTY);
            }
        }
    }
}

/// The pair of neighbours that starts at `i` is out of order and every pair
/// from the one at `from` up to it is in order.
pub open spec fn first_out_of_order(pts: Seq<CurvePoint>, from: int, i: int) -> bool {
    &&& 0 <= from <= i < pts.len() - 1
    &&& forall|j: int| from <= j < i ==> #[trigger] pair_ordered(pts, j)
    &&& !pair_ordered(pts, i)
}

/// The refusal that the first pair out of order earns: for its temperatures
/// if they do not rise, else for its duties.
pub proof fn lemma_first_disorder(pts: Seq<CurvePoint>, from: int, i: int)
    requires
        first_out_of_order(pts, from, i),
    ensures
        disorder(pts, from) == Some(
            if pts[i].temp >= pts[i + 1].temp {
                ConfigError::NonMonotonicTemperature
            } else {
                ConfigError::NonMonotonicDuty
            },
        ),
    decreases i - from,
{
    if from < i {
        assert(pair_ordered(pts, from));
        lemma_first_disorder(pts, from + 1, i);
    }
}

/// Which refusal each fault earns. A duty value out of range is refused
/// whatever else holds; then lists of unequal length; then two empty lists;
/// then the first pair of neighbours out of order, for its temperatures if
/// they do not rise, else for its duties.
pub proof fn lemma_refusals(temps: Seq<int>, values: Seq<int>, i: int)
    ensures
        has_invalid_duty(values) ==> strict_rejection(temps, values) == Some(
            ConfigError::InvalidDutyValue,
        ),
        !has_invalid_duty(values) && temps.len() != values.len() ==> strict_rejection(
            temps,
            values,
        ) == Some(ConfigError::LengthMismatch),
        temps.len() == 0 && values.len() == 0 ==> strict_rejection(temps, values) == Some(
            ConfigError::EmptyCurve,
        ),
        ({
            &&& !has_invalid_duty(values)
            &&& temps.len() == values.len()
            &&& first_out_of_order(points(temps, values), 0, i)
        }) ==> strict_rejection(temps, values) == Some(
            if temps[i] >= temps[i + 1] {
                ConfigError::NonMonotonicTemperature
            } else {
                ConfigError::NonMonotonicDuty
            },
        ),
{
    let pts = points(temps, values);
    if temps.len() == values.len() && first_out_of_order(pts, 0, i) {
        lemma_first_disorder(pts, 0, i);
    }
}

} // verus!
