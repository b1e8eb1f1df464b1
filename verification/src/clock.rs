//! Reading the clock and writing times as local dates.

use vstd::prelude::*;
use vstd::string::to_string_from_display_ensures;

use crate::error::{AnyhowError, AppError};
use crate::text::join;

verus! {

/// A moment that the clock shows.
#[verifier::external_type_specification]
#[verifier::external_body]
pub struct ExSystemTime(std::time::SystemTime);

/// The error for a moment before the start of 1970.
#[verifier::external_type_specification]
#[verifier::external_body]
pub struct ExSystemTimeError(std::time::SystemTimeError);

/// The error of a `jiff` call.
#[verifier::external_type_specification]
#[verifier::external_body]
pub struct ExJiffError(jiff::Error);

/// `SystemTime::now` reads the clock: nothing is said of what it shows.
pub assume_specification[ std::time::SystemTime::now ]() -> std::time::SystemTime
;

/// How far a moment lies from the start of 1970, in nanoseconds: below zero, if it lies before.
pub uninterp spec fn moment_nanos(time: std::time::SystemTime) -> int;

/// The length of a duration in nanoseconds.
pub uninterp spec fn duration_nanos(duration: core::time::Duration) -> nat;

/// `Duration::as_secs` gives the whole seconds of a duration.
pub assume_specification[ core::time::Duration::as_secs ](duration: &core::time::Duration) -> (
    seconds: u64)
    ensures
        seconds == duration_nanos(*duration) / 1_000_000_000,
;

/// Calls `SystemTime::duration_since` with the start of 1970: it fails exactly for a moment
/// before that, and otherwise gives the time from there to the moment.
#[verifier::external_body]
fn since_epoch(time: std::time::SystemTime) -> (result: Result<
    core::time::Duration,
    std::time::SystemTimeError,
>)
    ensures
        result is Ok <==> moment_nanos(time) >= 0,
        result matches Ok(duration) ==> duration_nanos(duration) == moment_nanos(time),
{
    time.duration_since(std::time::UNIX_EPOCH)
}

/// The seconds that jiff can represent as a timestamp.
pub open spec fn is_timestamp(second: int) -> bool {
    -377705023201 <= second <= 253402207200
}

/// The distances from UTC, in seconds, that jiff can represent.
pub open spec fn is_offset(offset: int) -> bool {
    -93599 <= offset <= 93599
}

/// What `Zoned::strftime` writes for a format, of the moment `second` seconds after the start
/// of 1970 in a time zone that is `offset` seconds ahead of UTC.
pub uninterp spec fn strftime_text(second: i64, offset: i32, format: Seq<char>) -> Seq<char>;

/// Calls `Timestamp::from_second`: it accepts exactly the seconds that jiff can represent, and
/// the timestamp is at that second.
#[verifier::external_body]
fn timestamp_second(second: i64) -> (result: Result<i64, jiff::Error>)
    ensures
        result is Ok <==> is_timestamp(second as int),
        result matches Ok(same) ==> same == second,
{
    jiff::Timestamp::from_second(second).map(|timestamp| timestamp.as_second())
}

/// Calls `TimeZone::to_offset` on the time zone of the machine, for a timestamp. The offset
/// depends on the machine; it is always one that jiff can represent.
#[verifier::external_body]
pub(crate) fn system_offset(second: i64) -> (offset: i32)
    requires
        is_timestamp(second as int),
    ensures
        is_offset(offset as int),
{
    let timestamp = jiff::Timestamp::from_second(second).unwrap();
    jiff::tz::TimeZone::system().to_offset(timestamp).seconds()
}

/// Calls `Zoned::strftime` on a timestamp in a time zone with a fixed offset. The text depends
/// on the timestamp, the offset and the format alone.
#[verifier::external_body]
fn strftime(second: i64, offset: i32, format: &str) -> (text: String)
    requires
        is_timestamp(second as int),
        is_offset(offset as int),
    ensures
        text@ == strftime_text(second, offset, format@),
{
    let zone = jiff::tz::TimeZone::fixed(jiff::tz::Offset::from_seconds(offset).unwrap());
    let timestamp = jiff::Timestamp::from_second(second).unwrap();
    timestamp.to_zoned(zone).strftime(format).to_string()
}

/// What every message about a time that is no date begins with.
pub const DATE_FAILURE: &'static str = "Failed to convert timestemp to date: ";

/// A stored time could not be turned into a date; the error says what jiff said.
pub open spec fn is_date_error(error: AppError) -> bool {
    error matches AppError::Internal(error) && exists|cause: jiff::Error, shown: String| #[trigger]
        to_string_from_display_ensures(&cause, shown) && error@ == DATE_FAILURE@ + shown@
}

/// The clock stands before 1970; the error says what the clock said.
pub open spec fn is_clock_error(error: AppError) -> bool {
    error matches AppError::Internal(error) && exists|
        cause: std::time::SystemTimeError,
        shown: String,
    | #[trigger]
        to_string_from_display_ensures(&cause, shown) && error@ == DATE_FAILURE@ + shown@
}

/// `result` gives a moment in whole seconds since the start of 1970; there are none before that.
pub open spec fn is_unix_time(time: std::time::SystemTime, result: Result<u64, AppError>) -> bool {
    match result {
        Ok(seconds) => moment_nanos(time) >= 0 && seconds == moment_nanos(time) / 1_000_000_000,
        Err(error) => moment_nanos(time) < 0 && is_clock_error(error),
    }
}

/// `now` is a moment that the clock gave, in whole seconds since the start of 1970.
pub open spec fn is_clock_second(now: u64) -> bool {
    exists|time: std::time::SystemTime|
        call_ensures(std::time::SystemTime::now, (), time) && #[trigger] is_unix_time(
            time,
            Ok(now),
        )
}

/// A moment in whole seconds since the start of 1970.
pub fn seconds_at(time: std::time::SystemTime) -> (result: Result<u64, AppError>)
    ensures
        is_unix_time(time, result),
{
    match since_epoch(time) {
        Ok(duration) => Ok(duration.as_secs()),
        Err(error) => Err(date_error(error)),
    }
}

/// The moment that the clock shows, in whole seconds since the start of 1970.
pub(crate) fn unix_seconds() -> (result: Result<u64, AppError>)
    ensures
        exists|time: std::time::SystemTime|
            call_ensures(std::time::SystemTime::now, (), time) && #[trigger] is_unix_time(
                time,
                result,
            ),
        result matches Ok(now) ==> is_clock_second(now),
{
    let time = std::time::SystemTime::now();
    let result = seconds_at(time);
    assert(is_unix_time(time, result));
    result
}

/// The error for a time that is no date.
fn date_error<E: core::fmt::Display>(error: E) -> (result: AppError)
    ensures
        result matches AppError::Internal(result) && exists|shown: String| #[trigger]
            to_string_from_display_ensures(&error, shown) && result@ == DATE_FAILURE@ + shown@,
{
    let shown = error.to_string();
    AppError::Internal(AnyhowError(join(DATE_FAILURE, shown.as_str())))
}

/// How the times of entries are written.
pub const DATE_FORMAT: &'static str = "%Y-%m-%d %H:%M:%S";

/// A stored time as a signed number: the upper half of `u64` stands for times before 1970.
pub open spec fn signed_second(time: u64) -> int {
    if time < 0x8000_0000_0000_0000 {
        time as int
    } else {
        time - 0x1_0000_0000_0000_0000
    }
}

/// The time zone of the machine gave `offset` for this second.
pub closed spec fn is_zone_offset(second: i64, offset: i32) -> bool {
    call_ensures(system_offset, (second,), offset)
}

/// What the zone of the machine gives for a second is what its look-up returns, and lies in the
/// range of offsets.
pub(crate) proof fn lemma_zone_offset(second: i64, offset: i32)
    ensures
        is_zone_offset(second, offset) <==> call_ensures(system_offset, (second,), offset),
        is_timestamp(second as int) && is_zone_offset(second, offset) ==> is_offset(offset as int),
{
}

/// `text` is the date of a stored time in the time zone of the machine.
pub open spec fn is_date_of(text: Seq<char>, time: u64) -> bool {
    &&& is_timestamp(signed_second(time))
    &&& exists|offset: i32|
        {
            &&& is_offset(offset as int)
            &&& is_zone_offset(signed_second(time) as i64, offset)
            &&& text == #[trigger] strftime_text(
                signed_second(time) as i64,
                offset,
                DATE_FORMAT@,
            )
        }
}

/// A stored time as a signed number.
fn to_signed(time: u64) -> (second: i64)
    ensures
        second == signed_second(time),
{
    assert(time < 0x8000_0000_0000_0000u64 ==> (time as i64) as int == time as int)
        by (bit_vector);
    assert(time >= 0x8000_0000_0000_0000u64 ==> (time as i64) as int == time as int
        - 0x1_0000_0000_0000_0000int) by (bit_vector);
    time as i64
}

/// The date of a moment in a time zone that is `offset` seconds ahead of UTC.
pub fn date_at(second: i64, offset: i32) -> (text: String)
    requires
        is_timestamp(second as int),
        is_offset(offset as int),
    ensures
        text@ == strftime_text(second, offset, DATE_FORMAT@),
{
    strftime(second, offset, DATE_FORMAT)
}

/// The date of a stored time in the time zone of the machine.
pub fn local_date(time: u64) -> (result: Result<String, AppError>)
    ensures
        result is Ok <==> is_timestamp(signed_second(time)),
        result matches Ok(text) ==> is_date_of(text@, time),
        result matches Err(error) ==> is_date_error(error),
{
    let second = to_signed(time);
    match timestamp_second(second) {
        Ok(second) => {
            let offset = system_offset(second);
            let text = date_at(second, offset);
            assert(text@ == strftime_text(signed_second(time) as i64, offset, DATE_FORMAT@));
            Ok(text)
        },
        Err(error) => Err(date_error(error)),
    }
}

/// A date that comes out was written for the stored time, read as a signed number, with the offset
/// that the look-up in the time zone of the machine returned for that second.
pub(crate) proof fn lemma_local_date_uses_the_zone(time: u64, text: String)
    requires
        call_ensures(local_date, (time,), Ok(text)),
    ensures
        exists|second: i64, offset: i32|
            {
                &&& second == time || second == time - 0x1_0000_0000_0000_0000
                &&& call_ensures(system_offset, (second,), offset)
                &&& text@ == #[trigger] strftime_text(second, offset, "%Y-%m-%d %H:%M:%S"@)
            },
{
}

} // verus!
