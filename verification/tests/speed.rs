use robocopy_log::{parse_speed, SpeedError};

#[test]
fn speed_in_bytes_per_second_is_read() {
    assert_eq!(parse_speed("12345 Bytes/sec."), Ok(12345));
}

#[test]
fn speed_in_another_unit_is_refused() {
    assert_eq!(parse_speed("12345 KB/sec."), Err(SpeedError::UnexpectedUnit));
    assert_eq!(parse_speed("0.706 MegaBytes/min."), Err(SpeedError::UnexpectedUnit));
}

#[test]
fn speed_unit_is_read_in_any_case() {
    assert_eq!(parse_speed("7 bytes/SEC."), Ok(7));
    assert_eq!(parse_speed("7 BYTES/SEC."), Ok(7));
}

#[test]
fn speed_unit_is_read_whole() {
    assert_eq!(parse_speed("7 Bytes/sec"), Err(SpeedError::UnexpectedUnit));
    assert_eq!(parse_speed("7 Bytes/sec. "), Err(SpeedError::UnexpectedUnit));
    assert_eq!(parse_speed("7  Bytes/sec."), Err(SpeedError::UnexpectedUnit));
    assert_eq!(parse_speed("7 "), Err(SpeedError::UnexpectedUnit));
}

#[test]
fn speed_without_space_is_refused() {
    assert_eq!(parse_speed("12345"), Err(SpeedError::MissingSeparator));
    assert_eq!(parse_speed(""), Err(SpeedError::MissingSeparator));
    assert_eq!(parse_speed("12345\tBytes/sec."), Err(SpeedError::MissingSeparator));
}

#[test]
fn speed_that_is_no_number_is_refused() {
    assert_eq!(parse_speed("fast Bytes/sec."), Err(SpeedError::InvalidNumber));
    assert_eq!(parse_speed(" Bytes/sec."), Err(SpeedError::InvalidNumber));
    assert_eq!(parse_speed("-1 Bytes/sec."), Err(SpeedError::InvalidNumber));
    assert_eq!(parse_speed("1.5 Bytes/sec."), Err(SpeedError::InvalidNumber));
}

#[test]
fn speed_unit_is_looked_at_before_the_number() {
    assert_eq!(parse_speed("fast KB/sec."), Err(SpeedError::UnexpectedUnit));
}

#[test]
fn speed_may_be_as_large_as_128_bits_hold() {
    assert_eq!(
        parse_speed("340282366920938463463374607431768211455 Bytes/sec."),
        Ok(u128::MAX)
    );
    assert_eq!(
        parse_speed("340282366920938463463374607431768211456 Bytes/sec."),
        Err(SpeedError::InvalidNumber)
    );
}
