//! Dates and times, as `chrono` reads and writes them.

use vstd::prelude::*;

use crate::text::{text_opt, trimmed, trim};

verus! {

pub open spec fn leap_year(year: int) -> bool {
    year % 4 == 0 && (year % 100 != 0 || year % 400 == 0)
}

pub open spec fn days_in_month(year: int, month: int) -> int {
    if month == 2 {
        if leap_year(year) {
            29
        } else {
            28
        }
    } else if month == 4 || month == 6 || month == 9 || month == 11 {
        30
    } else {
        31
    }
}

/// The days of the year before a month.
pub open spec fn days_before_month(year: int, month: int) -> int
    decreases month,
{
    if month <= 1 {
        0
    } else {
        days_before_month(year, month - 1) + days_in_month(year, month - 1)
    }
}

/// The days from the first day of the year one to the first day of a year.
pub open spec fn days_before_year(year: int) -> int {
    365 * (year - 1) + (year - 1) / 4 - (year - 1) / 100 + (year - 1) / 400
}

/// The days from the beginning of 1970 to a date.
pub open spec fn day_number(year: int, month: int, day: int) -> int {
    days_before_year(year) + days_before_month(year, month) + day - 719_163
}

/// Midnight UTC of a date of the Gregorian calendar, in seconds; `None` where
/// there is no such date, or the year is beyond the range of `chrono`.
pub open spec fn date_midnight(year: i32, month: u32, day: u32) -> Option<i64> {
    if -262_143 <= year <= 262_142 && 1 <= month <= 12 && 1 <= day <= days_in_month(
        year as int,
        month as int,
    ) {
        Some((day_number(year as int, month as int, day as int) * 86_400) as i64)
    } else {
        None
    }
}

/// Midnight UTC of the date that a text writes in a format.
pub uninterp spec fn date_read(text: Seq<char>, format: Seq<char>) -> Option<i64>;

/// The time that an RFC 3339 text writes.
pub uninterp spec fn rfc3339_read(text: Seq<char>) -> Option<i64>;

/// The time that a text with an offset writes in a format.
pub uninterp spec fn time_read(text: Seq<char>, format: Seq<char>) -> Option<i64>;

/// A time written in a format; `None` where it is out of range.
pub uninterp spec fn time_written(timestamp: i64, format: Seq<char>) -> Option<Seq<char>>;

/// `NaiveDate::from_ymd_opt`, at midnight UTC: the dates that exist in the
/// Gregorian calendar, carried back before its beginning, in the years that
/// `chrono` covers.
#[verifier::external_body]
pub(crate) fn midnight(year: i32, month: u32, day: u32) -> (r: Option<i64>)
    ensures
        r == date_midnight(year, month, day),
{
    let date = chrono::NaiveDate::from_ymd_opt(year, month, day)?;
    Some(date.and_hms_opt(0, 0, 0)?.and_utc().timestamp())
}

/// `NaiveDate::parse_from_str`, at midnight UTC.
#[verifier::external_body]
pub(crate) fn read_date(text: &str, format: &str) -> (r: Option<i64>)
    ensures
        r == date_read(text@, format@),
{
    let date = chrono::NaiveDate::parse_from_str(text, format).ok()?;
    Some(date.and_hms_opt(0, 0, 0)?.and_utc().timestamp())
}

/// `DateTime::parse_from_rfc3339`.
#[verifier::external_body]
fn read_rfc3339(text: &str) -> (r: Option<i64>)
    ensures
        r == rfc3339_read(text@),
{
    Some(chrono::DateTime::parse_from_rfc3339(text).ok()?.timestamp())
}

/// `DateTime::parse_from_str`.
#[verifier::external_body]
fn read_time(text: &str, format: &str) -> (r: Option<i64>)
    ensures
        r == time_read(text@, format@),
{
    Some(chrono::DateTime::parse_from_str(text, format).ok()?.timestamp())
}

/// `DateTime::from_timestamp`, written by `format`.
#[verifier::external_body]
fn write_time(timestamp: i64, format: &str) -> (r: Option<String>)
    requires
        format@ == "%Y-%m-%d %H:%M"@,
    ensures
        text_opt(r) == time_written(timestamp, format@),
{
    let time = chrono::DateTime::from_timestamp(timestamp, 0)?;
    Some(time.format(format).to_string())
}

/// A timestamp as lists show it: to the minute, and nothing where it is out
/// of range.
pub open spec fn shown_time(timestamp: i64) -> Seq<char> {
    match time_written(timestamp, "%Y-%m-%d %H:%M"@) {
        Some(text) => text,
        None => Seq::empty(),
    }
}

pub fn format_timestamp(timestamp: i64) -> (r: String)
    ensures
        r@ == shown_time(timestamp),
{
    match write_time(timestamp, "%Y-%m-%d %H:%M") {
        Some(text) => text,
        None => String::new(),
    }
}

/// The first reading that works.
pub open spec fn first_reading(
    full: Option<i64>,
    minutes: Option<i64>,
    date: Option<i64>,
) -> Option<i64> {
    if full is Some {
        full
    } else if minutes is Some {
        minutes
    } else {
        date
    }
}

pub fn choose_reading(full: Option<i64>, minutes: Option<i64>, date: Option<i64>) -> (r: Option<i64>)
    ensures
        r == first_reading(full, minutes, date),
{
    match full {
        Some(time) => Some(time),
        None => match minutes {
            Some(time) => Some(time),
            None => date,
        },
    }
}

/// When something was published, as pages write it: in full, to the minute,
/// or by the day.
pub open spec fn published_time(value: Seq<char>) -> Option<i64> {
    first_reading(
        rfc3339_read(trim(value)),
        time_read(trim(value), "%Y-%m-%dT%H:%M%#z"@),
        date_read(trim(value), "%Y-%m-%d"@),
    )
}

pub fn parse_published_value(value: &str) -> (r: Option<i64>)
    ensures
        r == published_time(value@),
{
    let inner = trimmed(value);
    let full = read_rfc3339(&inner);
    let minutes = read_time(&inner, "%Y-%m-%dT%H:%M%#z");
    let date = read_date(&inner, "%Y-%m-%d");
    choose_reading(full, minutes, date)
}

/// A stated time is read as a full time first, then as one without seconds,
/// and at last as a day; blanks around it do not count.
pub proof fn full_times_are_read_before_days(value: Seq<char>)
    ensures
        rfc3339_read(trim(value)) is Some ==> published_time(value) == rfc3339_read(trim(value)),
        rfc3339_read(trim(value)) is None && time_read(
            trim(value),
            "%Y-%m-%dT%H:%M%#z"@,
        ) is Some ==> published_time(value) == time_read(trim(value), "%Y-%m-%dT%H:%M%#z"@),
        rfc3339_read(trim(value)) is None && time_read(trim(value), "%Y-%m-%dT%H:%M%#z"@) is None
            ==> published_time(value) == date_read(trim(value), "%Y-%m-%d"@),
{
}

/// A moment is shown by its day and its minute.
pub proof fn moments_are_shown_to_the_minute(timestamp: i64)
    ensures
        time_written(timestamp, "%Y-%m-%d %H:%M"@) matches Some(text) ==> shown_time(timestamp)
            == text,
        time_written(timestamp, "%Y-%m-%d %H:%M"@) is None ==> shown_time(timestamp).len() == 0,
{
}

} // verus!
