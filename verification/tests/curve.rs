use rp_fancontrol::{Celsius, Config, ConfigError, PWM};

fn celsius(millidegrees: &[i64]) -> Vec<Celsius> {
    millidegrees
        .iter()
        .map(|&m| Celsius { millidegrees: m })
        .collect()
}

fn duties(millionths: &[i64]) -> Vec<PWM> {
    millionths
        .iter()
        .map(|&m| PWM::new(m).expect("a duty within the range"))
        .collect()
}

fn curve(temps: &[i64], values: &[i64]) -> Config {
    Config::new(celsius(temps), duties(values)).expect("a valid curve")
}

fn eval(c: &Config, millidegrees: i64) -> u32 {
    c.evaluate(Celsius { millidegrees }).millionths()
}

fn reference() -> Config {
    curve(&[30_000, 50_000, 70_000], &[200_000, 500_000, 1_000_000])
}

#[test]
fn reference_curve_midway_between_two_breakpoints() {
    assert_eq!(eval(&reference(), 40_000), 350_000);
}

#[test]
fn reference_curve_below_the_first_breakpoint() {
    assert_eq!(eval(&reference(), 20_000), 200_000);
}

#[test]
fn reference_curve_above_the_last_breakpoint() {
    assert_eq!(eval(&reference(), 80_000), 1_000_000);
}

#[test]
fn reference_curve_at_a_breakpoint() {
    assert_eq!(eval(&reference(), 50_000), 500_000);
}

#[test]
fn every_breakpoint_gives_its_own_duty() {
    let c = reference();
    assert_eq!(eval(&c, 30_000), 200_000);
    assert_eq!(eval(&c, 50_000), 500_000);
    assert_eq!(eval(&c, 70_000), 1_000_000);
}

#[test]
fn first_duty_at_and_below_the_first_breakpoint() {
    let c = reference();
    for x in [i64::MIN, -1, 0, 29_999, 30_000] {
        assert_eq!(eval(&c, x), 200_000);
    }
}

#[test]
fn last_duty_at_and_above_the_last_breakpoint() {
    let c = reference();
    for x in [70_000, 70_001, 1_000_000, i64::MAX] {
        assert_eq!(eval(&c, x), 1_000_000);
    }
}

#[test]
fn value_between_neighbours_lies_on_the_line_and_between_their_duties() {
    let c = reference();
    // 200_000 + 300_000 * 5_000 / 20_000
    assert_eq!(eval(&c, 35_000), 275_000);
    // 500_000 + 500_000 * 15_000 / 20_000
    assert_eq!(eval(&c, 65_000), 875_000);
    for x in 30_001..50_000 {
        let d = eval(&c, x);
        assert!((200_000..=500_000).contains(&d));
        assert_eq!(d as i64, 200_000 + 300_000 * (x - 30_000) / 20_000);
    }
}

#[test]
fn value_is_rounded_down_to_a_whole_millionth() {
    let c = curve(&[0, 3], &[0, 1]);
    assert_eq!(eval(&c, 1), 0);
    assert_eq!(eval(&c, 2), 0);
    assert_eq!(eval(&c, 3), 1);
    let c = curve(&[0, 3_000], &[0, 1_000_000]);
    assert_eq!(eval(&c, 1_000), 333_333);
    assert_eq!(eval(&c, 2_000), 666_666);
}

#[test]
fn value_never_falls_as_the_temperature_rises() {
    let c = curve(
        &[-10_000, 0, 35_500, 36_000, 90_000],
        &[0, 0, 123_456, 123_456, 999_999],
    );
    let mut previous = eval(&c, -20_000);
    let mut x = -20_000;
    while x <= 100_000 {
        let d = eval(&c, x);
        assert!(previous <= d);
        previous = d;
        x += 7;
    }
    assert_eq!(previous, 999_999);
}

#[test]
fn single_point_curve_gives_its_duty_everywhere() {
    let c = curve(&[45_000], &[600_000]);
    assert_eq!(c.len(), 1);
    for x in [i64::MIN, 0, 44_999, 45_000, 45_001, i64::MAX] {
        assert_eq!(eval(&c, x), 600_000);
    }
}

#[test]
fn flat_curve_gives_one_duty() {
    let c = curve(&[10_000, 20_000], &[400_000, 400_000]);
    for x in [0, 10_000, 15_000, 20_000, 30_000] {
        assert_eq!(eval(&c, x), 400_000);
    }
}

#[test]
fn widest_span_of_temperatures_does_not_overflow() {
    let c = curve(&[i64::MIN, i64::MAX], &[0, 1_000_000]);
    assert_eq!(eval(&c, i64::MIN), 0);
    assert_eq!(eval(&c, i64::MAX), 1_000_000);
    // 1_000_000 * 2^63 / (2^64 - 1), rounded down
    assert_eq!(eval(&c, 0), 500_000);
    assert_eq!(eval(&c, -1), 499_999);
    assert_eq!(eval(&c, i64::MAX - 1), 999_999);
}

#[test]
fn negative_temperatures_interpolate() {
    let c = curve(&[-20_000, -10_000], &[100_000, 200_000]);
    assert_eq!(eval(&c, -15_000), 150_000);
    assert_eq!(eval(&c, -19_999), 100_010);
}

#[test]
fn points_are_kept_in_the_order_given() {
    let c = reference();
    assert_eq!(c.len(), 3);
    let (t, d) = c.breakpoint(0);
    assert_eq!((t.millidegrees, d.millionths()), (30_000, 200_000));
    let (t, d) = c.breakpoint(1);
    assert_eq!((t.millidegrees, d.millionths()), (50_000, 500_000));
    let (t, d) = c.breakpoint(2);
    assert_eq!((t.millidegrees, d.millionths()), (70_000, 1_000_000));
}

#[test]
fn empty_curve_is_refused() {
    let r = Config::new(Vec::new(), Vec::new());
    assert_eq!(r.err(), Some(ConfigError::EmptyCurve));
    let r = Config::with_strict_duties(Vec::new(), Vec::new());
    assert_eq!(r.err(), Some(ConfigError::EmptyCurve));
}

#[test]
fn lists_of_unequal_length_are_refused() {
    let r = Config::new(celsius(&[30_000, 50_000]), duties(&[200_000, 500_000, 1_000_000]));
    assert_eq!(r.err(), Some(ConfigError::LengthMismatch));
    let r = Config::new(celsius(&[30_000]), Vec::new());
    assert_eq!(r.err(), Some(ConfigError::LengthMismatch));
    let r = Config::with_strict_duties(celsius(&[30_000, 50_000, 70_000]), vec![200_000]);
    assert_eq!(r.err(), Some(ConfigError::LengthMismatch));
}

#[test]
fn equal_temperatures_are_refused() {
    let r = Config::new(celsius(&[30_000, 30_000]), duties(&[200_000, 500_000]));
    assert_eq!(r.err(), Some(ConfigError::NonMonotonicTemperature));
}

#[test]
fn decreasing_temperatures_are_refused() {
    let r = Config::new(celsius(&[50_000, 30_000]), duties(&[200_000, 500_000]));
    assert_eq!(r.err(), Some(ConfigError::NonMonotonicTemperature));
    let r = Config::new(
        celsius(&[10_000, 20_000, 30_000, 29_999]),
        duties(&[0, 0, 0, 0]),
    );
    assert_eq!(r.err(), Some(ConfigError::NonMonotonicTemperature));
}

#[test]
fn decreasing_duties_are_refused() {
    let r = Config::new(celsius(&[30_000, 50_000]), duties(&[500_000, 300_000]));
    assert_eq!(r.err(), Some(ConfigError::NonMonotonicDuty));
    let r = Config::new(
        celsius(&[10_000, 20_000, 30_000]),
        duties(&[100_000, 100_000, 99_999]),
    );
    assert_eq!(r.err(), Some(ConfigError::NonMonotonicDuty));
}

#[test]
fn equal_duties_are_accepted() {
    assert!(Config::new(celsius(&[30_000, 50_000]), duties(&[500_000, 500_000])).is_ok());
}

#[test]
fn duty_values_out_of_range_are_refused() {
    let r = Config::with_strict_duties(celsius(&[30_000, 50_000]), vec![200_000, 1_500_000]);
    assert_eq!(r.err(), Some(ConfigError::InvalidDutyValue));
    let r = Config::with_strict_duties(celsius(&[30_000, 50_000]), vec![-1, 500_000]);
    assert_eq!(r.err(), Some(ConfigError::InvalidDutyValue));
    let r = Config::with_strict_duties(celsius(&[30_000]), vec![1_000_001]);
    assert_eq!(r.err(), Some(ConfigError::InvalidDutyValue));
    let r = Config::with_strict_duties(celsius(&[30_000]), vec![i64::MIN]);
    assert_eq!(r.err(), Some(ConfigError::InvalidDutyValue));
}

#[test]
fn duty_values_are_judged_before_the_lists() {
    let r = Config::with_strict_duties(celsius(&[30_000]), vec![200_000, 2_000_000]);
    assert_eq!(r.err(), Some(ConfigError::InvalidDutyValue));
    let r = Config::with_strict_duties(Vec::new(), vec![-5]);
    assert_eq!(r.err(), Some(ConfigError::InvalidDutyValue));
    let r = Config::with_strict_duties(celsius(&[50_000, 30_000]), vec![0, 1_000_001]);
    assert_eq!(r.err(), Some(ConfigError::InvalidDutyValue));
}

#[test]
fn first_offending_pair_decides_the_refusal() {
    // the first pair breaks the duty rule, the second the temperature rule
    let r = Config::new(
        celsius(&[10_000, 20_000, 20_000]),
        duties(&[500_000, 400_000, 400_000]),
    );
    assert_eq!(r.err(), Some(ConfigError::NonMonotonicDuty));
    // the first pair breaks the temperature rule, the second the duty rule
    let r = Config::new(
        celsius(&[10_000, 10_000, 20_000]),
        duties(&[400_000, 500_000, 400_000]),
    );
    assert_eq!(r.err(), Some(ConfigError::NonMonotonicTemperature));
}

#[test]
fn temperatures_are_judged_first_within_a_pair() {
    let r = Config::new(celsius(&[50_000, 30_000]), duties(&[500_000, 300_000]));
    assert_eq!(r.err(), Some(ConfigError::NonMonotonicTemperature));
}

#[test]
fn strict_construction_builds_the_same_curve() {
    let c = Config::with_strict_duties(
        celsius(&[30_000, 50_000, 70_000]),
        vec![200_000, 500_000, 1_000_000],
    )
    .expect("a valid curve");
    assert_eq!(c.len(), 3);
    assert_eq!(eval(&c, 40_000), 350_000);
    assert_eq!(eval(&c, 20_000), 200_000);
    assert_eq!(eval(&c, 80_000), 1_000_000);
    assert_eq!(eval(&c, 50_000), 500_000);
    let (t, d) = c.breakpoint(2);
    assert_eq!((t.millidegrees, d.millionths()), (70_000, 1_000_000));
}

#[test]
fn ends_of_the_duty_range_are_accepted() {
    let c = Config::with_strict_duties(celsius(&[0, 1]), vec![0, 1_000_000]).expect("valid");
    assert_eq!(eval(&c, 0), 0);
    assert_eq!(eval(&c, 1), 1_000_000);
}
