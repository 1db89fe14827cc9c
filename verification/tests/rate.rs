use broken::rate::{Rate, RateError, HORIZON, MILLIHERTZ_PERIOD};

#[test]
fn zero_rate_is_refused() {
    assert_eq!(Rate::new(0), Err(RateError::NegativeOrZeroRate));
}

#[test]
fn negative_rate_is_refused() {
    assert_eq!(Rate::new(-1), Err(RateError::NegativeOrZeroRate));
    assert_eq!(Rate::new(i64::MIN), Err(RateError::NegativeOrZeroRate));
}

#[test]
fn positive_rate_keeps_its_millihertz() {
    let rate = Rate::new(59_940).unwrap();
    assert_eq!(rate.millihertz(), 59_940);
    let fastest = Rate::new(i64::MAX).unwrap();
    assert_eq!(fastest.millihertz(), i64::MAX as u64);
}

#[test]
fn period_of_fifty_hertz_is_twenty_milliseconds() {
    assert_eq!(Rate::new(50_000).unwrap().period(), 20_000_000);
}

#[test]
fn period_of_ten_hertz_is_a_tenth_of_a_second() {
    assert_eq!(Rate::new(10_000).unwrap().period(), 100_000_000);
}

#[test]
fn period_takes_the_whole_part() {
    assert_eq!(Rate::new(3_000).unwrap().period(), 333_333_333);
    assert_eq!(Rate::new(60_000).unwrap().period(), 16_666_666);
    assert_eq!(Rate::new(7).unwrap().period(), 142_857_142_857);
}

#[test]
fn period_of_one_millihertz_is_the_longest() {
    assert_eq!(Rate::new(1).unwrap().period(), MILLIHERTZ_PERIOD);
    assert_eq!(MILLIHERTZ_PERIOD, 1_000_000_000_000);
}

#[test]
fn period_is_never_shorter_than_a_nanosecond() {
    assert_eq!(Rate::new(1_000_000_000_000).unwrap().period(), 1);
    assert_eq!(Rate::new(1_000_000_000_001).unwrap().period(), 1);
    assert_eq!(Rate::new(600_000_000_000).unwrap().period(), 1);
    assert_eq!(Rate::new(500_000_000_000).unwrap().period(), 2);
    assert_eq!(Rate::new(i64::MAX).unwrap().period(), 1);
}

#[test]
fn horizon_leaves_room_for_the_longest_period() {
    assert_eq!(HORIZON, u64::MAX - MILLIHERTZ_PERIOD);
}
