//! The wall clock, read through `std::time::SystemTime` and `chrono`.
//!
//! The clock can read a time that chrono cannot hold (before 1970 here, or
//! past chrono's range); the readers then return `ClockUnreadable` rather
//! than panic.

use vstd::prelude::*;

verus! {

/// `c` is a decimal digit.
pub open spec fn is_decimal_digit(c: char) -> bool {
    48 <= (c as u32) <= 57
}

/// Text that chrono gives for a date formatted as "%Y-%m-%d": decimal
/// digits and dashes, with a '+' or '-' sign before a year outside 0..=9999.
pub open spec fn is_date_text(t: Seq<char>) -> bool {
    forall|i: int|
        0 <= i < t.len() ==> is_decimal_digit(#[trigger] t[i]) || t[i] == '-' || t[i] == '+'
}

/// Text that chrono gives for a time formatted as "%H%M%S": six decimal digits.
pub open spec fn is_time_text(t: Seq<char>) -> bool {
    &&& t.len() == 6
    &&& forall|i: int| 0 <= i < t.len() ==> is_decimal_digit(#[trigger] t[i])
}

/// Text that chrono's `to_rfc3339` gives for a UTC time: the date, 'T', the
/// time of day with an optional fraction of a second, and the offset
/// "+00:00"; only digits and the characters "-+T:." occur in it.
pub open spec fn is_utc_timestamp_text(t: Seq<char>) -> bool {
    &&& t.len() >= 6
    &&& t.subrange(t.len() - 6, t.len() as int) == seq!['+', '0', '0', ':', '0', '0']
    &&& t.contains('T')
    &&& forall|i: int|
        0 <= i < t.len() ==> is_decimal_digit(#[trigger] t[i]) || t[i] == '-' || t[i] == '+'
            || t[i] == 'T' || t[i] == ':' || t[i] == '.'
}

/// What a clock reader gives when the wall clock cannot be read as a time
/// that chrono holds (before 1970, or past chrono's range). Only the readers
/// of this module make one, so holding one shows that a read failed.
pub struct ClockUnreadable {
    read_failed: (),
}

/// The current UTC time as RFC 3339 text: `std::time::SystemTime::now()`,
/// as seconds since 1970, made a `chrono::DateTime<Utc>` by
/// `DateTime::from_timestamp` and written by `to_rfc3339`. `Err` when the
/// clock reads before 1970 or past chrono's range. Which time comes back
/// depends on the clock; what is stated is its form, as chrono writes it.
#[verifier::external_body]
pub(crate) fn timestamp_now() -> (r: Result<String, ClockUnreadable>)
    ensures
        r matches Ok(t) ==> is_utc_timestamp_text(t@),
{
    let since_epoch = std::time::SystemTime::now().duration_since(std::time::UNIX_EPOCH).ok()
        .ok_or(ClockUnreadable { read_failed: () })?;
    let seconds = i64::try_from(since_epoch.as_secs()).ok().ok_or(ClockUnreadable { read_failed: () })?;
    let now = chrono::DateTime::<chrono::Utc>::from_timestamp(seconds, since_epoch.subsec_nanos())
        .ok_or(ClockUnreadable { read_failed: () })?;
    Ok(now.to_rfc3339())
}

/// The current UTC time, read as `timestamp_now` reads it, formatted once
/// with `date_format` and once with `time_format` (`DateTime::format`, then
/// `to_string`). Only the two formats that the file names use are admitted:
/// `to_string` panics on a format that chrono cannot render. `Err` when the
/// clock reads before 1970 or past chrono's range. Which date and time come
/// back depends on the clock; what is stated is their form, as chrono writes
/// these fields: the year has at least four digits, and the other fields two
/// zero-padded digits each.
#[verifier::external_body]
pub(crate) fn date_and_time_now(date_format: &str, time_format: &str) -> (r: Result<
    (String, String),
    ClockUnreadable,
>)
    requires
        date_format@ == "%Y-%m-%d"@,
        time_format@ == "%H%M%S"@,
    ensures
        r matches Ok((date, time)) ==> is_date_text(date@) && date@.len() > 0 && is_time_text(
            time@,
        ),
{
    let since_epoch = std::time::SystemTime::now().duration_since(std::time::UNIX_EPOCH).ok()
        .ok_or(ClockUnreadable { read_failed: () })?;
    let seconds = i64::try_from(since_epoch.as_secs()).ok().ok_or(ClockUnreadable { read_failed: () })?;
    let now = chrono::DateTime::<chrono::Utc>::from_timestamp(seconds, since_epoch.subsec_nanos())
        .ok_or(ClockUnreadable { read_failed: () })?;
    Ok((now.format(date_format).to_string(), now.format(time_format).to_string()))
}

} // verus!
