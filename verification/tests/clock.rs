use qqh::clock::{date_at, local_date, seconds_at};
use qqh::error::AppError;
use std::time::{Duration, UNIX_EPOCH};

fn system_date(second: i64) -> String {
    jiff::Timestamp::from_second(second)
        .unwrap()
        .to_zoned(jiff::tz::TimeZone::system())
        .strftime("%Y-%m-%d %H:%M:%S")
        .to_string()
}

#[test]
fn dates_are_written_to_the_second() {
    assert_eq!(date_at(0, 0), "1970-01-01 00:00:00");
    assert_eq!(date_at(1_000_000_000, 0), "2001-09-09 01:46:40");
    assert_eq!(date_at(-1, 0), "1969-12-31 23:59:59");
}

#[test]
fn dates_follow_the_offset() {
    assert_eq!(date_at(0, 3600), "1970-01-01 01:00:00");
    assert_eq!(date_at(0, -3600), "1969-12-31 23:00:00");
    assert_eq!(date_at(1_000_000_000, 28_800), "2001-09-09 09:46:40");
}

#[test]
fn the_extremes_have_dates() {
    assert_eq!(date_at(253_402_207_200, 0), "9999-12-30 22:00:00");
    assert_eq!(date_at(253_402_207_200, 93_599), "9999-12-31 23:59:59");
    assert_eq!(date_at(-377_705_023_201, -93_599).len(), 20);
}

#[test]
fn a_stored_time_is_shown_in_the_zone_of_the_machine() {
    for second in [0u64, 1_000_000_000, 1_720_000_000, 253_402_207_200] {
        assert_eq!(local_date(second).unwrap(), system_date(second as i64));
    }
}

#[test]
fn the_upper_half_stands_for_times_before_the_epoch() {
    assert_eq!(local_date(u64::MAX).unwrap(), system_date(-1));
}

#[test]
fn a_time_out_of_range_is_an_error() {
    for time in [253_402_207_201u64, i64::MAX as u64, 1u64 << 63] {
        let expected = format!(
            "Failed to convert timestemp to date: {}",
            jiff::Timestamp::from_second(time as i64).unwrap_err()
        );
        match local_date(time) {
            Err(AppError::Internal(error)) => assert_eq!(error.0, expected),
            other => panic!("{:?}", other),
        }
    }
}

#[test]
fn a_moment_is_counted_in_whole_seconds() {
    assert_eq!(seconds_at(UNIX_EPOCH).unwrap(), 0);
    let moment = UNIX_EPOCH + Duration::from_millis(1_999);
    assert_eq!(seconds_at(moment).unwrap(), 1);
    let moment = UNIX_EPOCH + Duration::from_secs(1_000_000_000);
    assert_eq!(seconds_at(moment).unwrap(), 1_000_000_000);
}

#[test]
fn a_moment_before_the_epoch_is_an_error() {
    let moment = UNIX_EPOCH - Duration::from_secs(5);
    let expected = format!(
        "Failed to convert timestemp to date: {}",
        moment.duration_since(UNIX_EPOCH).unwrap_err()
    );
    match seconds_at(moment) {
        Err(AppError::Internal(error)) => assert_eq!(error.0, expected),
        other => panic!("{:?}", other),
    }
}
