use upstash_ratelimit_rs::ratelimit::common::RatelimitError;
use upstash_ratelimit_rs::ratelimit::duration::into_milliseconds;

#[test]
fn test_days_into_milliseconds() {
    assert_eq!(86400000, into_milliseconds("1d").unwrap())
}

#[test]
fn test_hours_into_milliseconds() {
    assert_eq!(7200000, into_milliseconds("2h").unwrap())
}

#[test]
fn test_minutes_into_milliseconds() {
    assert_eq!(300000, into_milliseconds("5m").unwrap())
}

#[test]
fn test_seconds_into_milliseconds() {
    assert_eq!(10000, into_milliseconds("10s").unwrap())
}

#[test]
fn test_milliseconds() {
    assert_eq!(2000000, into_milliseconds("2000000ms").unwrap())
}

#[test]
fn test_rejects_text_without_number() {
    assert_eq!(Err(RatelimitError::Configuration), into_milliseconds("abc"));
}

#[test]
fn test_rejects_number_without_unit() {
    assert_eq!(Err(RatelimitError::Configuration), into_milliseconds("30"));
}

#[test]
fn test_rejects_unit_without_number() {
    assert_eq!(Err(RatelimitError::Configuration), into_milliseconds("ms"));
    assert_eq!(Err(RatelimitError::Configuration), into_milliseconds("s"));
}

#[test]
fn test_rejects_empty_text() {
    assert_eq!(Err(RatelimitError::Configuration), into_milliseconds(""));
}

#[test]
fn test_rejects_trailing_characters() {
    assert_eq!(Err(RatelimitError::Configuration), into_milliseconds("30s "));
    assert_eq!(Err(RatelimitError::Configuration), into_milliseconds("30sx"));
    assert_eq!(Err(RatelimitError::Configuration), into_milliseconds("x30s"));
}

#[test]
fn test_rejects_negative_number() {
    assert_eq!(Err(RatelimitError::Configuration), into_milliseconds("-5s"));
}

#[test]
fn test_millisecond_unit_wins_over_minute() {
    assert_eq!(5, into_milliseconds("5ms").unwrap());
    assert_eq!(300000, into_milliseconds("5m").unwrap());
}

#[test]
fn test_zero_duration_parses_to_zero() {
    assert_eq!(0, into_milliseconds("0s").unwrap());
}

#[test]
fn test_rejects_overlarge_number() {
    // Ten more digits than u128 can hold.
    assert_eq!(
        Err(RatelimitError::Configuration),
        into_milliseconds("3402823669209384634633746074317682114550000000000ms")
    );
    // Fits as a number of days only until converted to milliseconds.
    assert_eq!(
        Err(RatelimitError::Configuration),
        into_milliseconds("340282366920938463463374607431768211455d")
    );
}
