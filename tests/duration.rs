use baba_bot::time::{Time, TimeErr};

fn time(seconds: u8, minutes: u8, hours: u8, days: u8) -> Time {
    Time { seconds, minutes, hours, days }
}

#[test]
fn one_pair_per_unit_in_any_order() {
    assert_eq!(Time::parse("2h30m"), Ok(time(0, 30, 2, 0)));
    assert_eq!(Time::parse("30m2h"), Ok(time(0, 30, 2, 0)));
    assert_eq!(Time::parse("1d2h3m4s"), Ok(time(4, 3, 2, 1)));
    assert_eq!(Time::parse("4s3m2h1d"), Ok(time(4, 3, 2, 1)));
    assert_eq!(Time::parse("255d"), Ok(time(0, 0, 0, 255)));
    assert_eq!(Time::parse("007s"), Ok(time(7, 0, 0, 0)));
}

#[test]
fn empty_duration_is_zero() {
    assert_eq!(Time::parse(""), Ok(time(0, 0, 0, 0)));
    assert_eq!(Time::parse(""), Ok(Time::zero()));
}

#[test]
fn trailing_letter_that_is_no_unit() {
    assert_eq!(Time::parse("3x"), Err(TimeErr::InvalidUnit('x')));
    assert_eq!(Time::parse("2h30x"), Err(TimeErr::InvalidUnit('x')));
    assert_eq!(Time::parse("2hq"), Err(TimeErr::InvalidUnit('q')));
}

#[test]
fn run_without_unit() {
    assert_eq!(Time::parse("30"), Err(TimeErr::MissingUnit));
    assert_eq!(Time::parse("2h30"), Err(TimeErr::MissingUnit));
}

#[test]
fn magnitude_that_is_no_number() {
    assert_eq!(Time::parse("h"), Err(TimeErr::NotANumber));
    assert_eq!(Time::parse("256s"), Err(TimeErr::NotANumber));
    assert_eq!(Time::parse("1x2s"), Err(TimeErr::NotANumber));
    assert_eq!(Time::parse("-5m"), Err(TimeErr::NotANumber));
}

#[test]
fn later_run_of_a_unit_overwrites() {
    assert_eq!(Time::parse("5m7m"), Ok(time(0, 7, 0, 0)));
}

#[test]
fn total_seconds() {
    assert_eq!(time(4, 3, 2, 1).total_seconds(), 4 + 180 + 7200 + 86400);
    assert_eq!(time(255, 255, 255, 255).total_seconds(), 255 * (1 + 60 + 3600 + 86400));
}

#[test]
fn unit_error_follows_the_letter_test() {
    assert_eq!(baba_bot::time::unit_error('x', true), TimeErr::InvalidUnit('x'));
    assert_eq!(baba_bot::time::unit_error('0', false), TimeErr::MissingUnit);
    assert_eq!(Time::parse("3\u{e9}"), Err(TimeErr::InvalidUnit('\u{e9}')));
    assert_eq!(Time::parse("3-"), Err(TimeErr::MissingUnit));
}
