//! Calendar dates as plain numbers. The calendar itself is the `chrono`
//! crate's: every date here has passed through it.

use chrono::Datelike;
use vstd::prelude::*;

verus! {

/// A day of the proleptic Gregorian calendar.
#[derive(Clone, Copy, Debug, PartialEq, Eq, Structural, Hash)]
pub struct Date {
    pub year: i32,
    pub month: u32,
    pub day: u32,
}

/// Whether `year` has a 29th of February.
pub open spec fn is_leap_year(year: int) -> bool {
    year % 4 == 0 && (year % 100 != 0 || year % 400 == 0)
}

/// The number of days of `month` in `year`; 0 where `month` is no month.
pub open spec fn days_in_month(year: int, month: int) -> int {
    if month == 2 {
        if is_leap_year(year) {
            29
        } else {
            28
        }
    } else if month == 4 || month == 6 || month == 9 || month == 11 {
        30
    } else if 1 <= month <= 12 {
        31
    } else {
        0
    }
}

/// `year`, `month` and `day` name a day that exists, in a year that `chrono`
/// can hold.
pub open spec fn is_calendar_date(year: int, month: int, day: int) -> bool {
    -262143 <= year <= 262142 && 1 <= month <= 12 && 1 <= day <= days_in_month(year, month)
}

/// What `chrono::NaiveDate::parse_from_str` reads from `text` under `format`.
pub uninterp spec fn date_read(text: Seq<char>, format: Seq<char>) -> Option<Date>;

/// The seconds from 1970-01-01 00:00:00 UTC to midnight UTC of the given day,
/// as `chrono::DateTime::timestamp` counts them.
pub uninterp spec fn midnight_of(year: int, month: int, day: int) -> i64;

/// The first second that `chrono` has a date and time for: midnight of the
/// first day of the year -262143.
pub const TIMESTAMP_MIN: i64 = -8_334_601_228_800;

/// The last second that `chrono` has a date and time for: the last second of
/// the year 262142.
pub const TIMESTAMP_MAX: i64 = 8_210_266_876_799;

/// Whether `seconds` since the Unix epoch stand for a date and time that
/// `chrono` can hold.
pub open spec fn is_timestamp(seconds: int) -> bool {
    TIMESTAMP_MIN <= seconds <= TIMESTAMP_MAX
}

impl Date {
    /// The date exists.
    pub open spec fn is_valid(self) -> bool {
        is_calendar_date(self.year as int, self.month as int, self.day as int)
    }

    /// Calls `chrono::NaiveDate::from_ymd_opt`, which by its documentation
    /// returns a date unless the day does not exist, month or day is invalid,
    /// or the year is out of its range, -262143 to 262142.
    #[verifier::external_body]
    pub(crate) fn checked(year: i32, month: u32, day: u32) -> (r: Option<Date>)
        ensures
            r == (if is_calendar_date(year as int, month as int, day as int) {
                Some(Date { year, month, day })
            } else {
                None
            }),
    {
        chrono::NaiveDate::from_ymd_opt(year, month, day).map(|_| Date { year, month, day })
    }

    /// Calls `chrono::NaiveDate::parse_from_str` and copies year, month and
    /// day out of the date it returns, which is a day that exists.
    #[verifier::external_body]
    pub(crate) fn read(text: &str, format: &str) -> (r: Option<Date>)
        ensures
            r == date_read(text@, format@),
            r matches Some(date) ==> date.is_valid(),
    {
        chrono::NaiveDate::parse_from_str(text, format).ok().map(
            |d| Date { year: d.year(), month: d.month(), day: d.day() },
        )
    }

    /// Builds the day with `chrono::NaiveDate::from_ymd_opt`, which returns
    /// one exactly where the day exists, takes its midnight with `and_time`,
    /// and calls `and_utc` and `timestamp` on it.
    #[verifier::external_body]
    pub(crate) fn midnight(&self) -> (r: Option<i64>)
        ensures
            r == (if self.is_valid() {
                Some(midnight_of(self.year as int, self.month as int, self.day as int))
            } else {
                None
            }),
    {
        chrono::NaiveDate::from_ymd_opt(self.year, self.month, self.day).map(
            |day| day.and_time(chrono::NaiveTime::MIN).and_utc().timestamp(),
        )
    }

    /// Calls `chrono::Local::now` and copies year, month and day out of its
    /// `date_naive`. The day depends on the clock and the time zone; it exists.
    #[verifier::external_body]
    pub(crate) fn today() -> (r: Date)
        ensures
            r.is_valid(),
    {
        let now = chrono::Local::now().date_naive();
        Date { year: now.year(), month: now.month(), day: now.day() }
    }
}

/// Calls `chrono::DateTime::from_timestamp` with no nanoseconds and reports
/// whether it returned a date and time. It returns one where the seconds lie
/// in the days from the first of the year -262143 to the last of the year
/// 262142, the range of `chrono::NaiveDate`.
#[verifier::external_body]
pub(crate) fn timestamp_exists(seconds: i64) -> (r: bool)
    ensures
        r == is_timestamp(seconds as int),
{
    chrono::DateTime::from_timestamp(seconds, 0).is_some()
}

} // verus!
