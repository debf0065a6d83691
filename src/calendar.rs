//! Calendar dates and local timestamps, with the few facts about the
//! Gregorian calendar that the toll rules need from `chrono`.

use chrono::Datelike;
use vstd::prelude::*;

verus! {

/// The largest year that a `chrono::NaiveDate` can hold.
pub const MAX_YEAR: i32 = 262142;

/// The smallest year that a `chrono::NaiveDate` can hold.
pub const MIN_YEAR: i32 = -262143;

/// Leap years of the proleptic Gregorian calendar.
pub open spec fn leap_year(year: int) -> bool {
    (year % 4 == 0 && year % 100 != 0) || year % 400 == 0
}

/// Number of days of a month (1 = January) in a given year.
pub open spec fn days_in_month(year: int, month: int) -> int {
    if month == 2 {
        if leap_year(year) { 29 } else { 28 }
    } else if month == 4 || month == 6 || month == 9 || month == 11 {
        30
    } else {
        31
    }
}

/// The year, month and day name a day that `chrono::NaiveDate` can represent.
pub open spec fn is_calendar_date(year: int, month: int, day: int) -> bool {
    &&& MIN_YEAR <= year <= MAX_YEAR
    &&& 1 <= month <= 12
    &&& 1 <= day <= days_in_month(year, month)
}

/// Days of the months before `month` in `year`.
pub open spec fn days_before_month(year: int, month: int) -> int
    decreases month,
{
    if month <= 1 {
        0
    } else {
        days_before_month(year, month - 1) + days_in_month(year, month - 1)
    }
}

/// Position of a date within its year, January 1 being 1.
pub open spec fn day_of_year(year: int, month: int, day: int) -> int {
    days_before_month(year, month) + day
}

/// Days of the years before `year`, counted from January 1 of year 1.
pub open spec fn days_before_year(year: int) -> int {
    let p = year - 1;
    365 * p + p / 4 - p / 100 + p / 400
}

/// Day of the week of a calendar date, Monday being 0 and Sunday 6
/// (January 1 of year 1 was a Monday).
pub open spec fn weekday_from_monday(year: int, month: int, day: int) -> int {
    (days_before_year(year) + day_of_year(year, month, day) - 1) % 7
}

/// The (year, month, day) of day `ordinal` of `year`, looked for from month
/// `month` on.
pub open spec fn date_of_day_in_year(year: int, month: int, ordinal: int) -> (int, int, int)
    decreases 12 - month,
{
    if month >= 12 || ordinal <= days_before_month(year, month + 1) {
        (year, month, ordinal - days_before_month(year, month))
    } else {
        date_of_day_in_year(year, month + 1, ordinal)
    }
}

/// The (year, month, day) lying `days` days after a date, for a result in
/// the same year.
pub open spec fn date_plus_days(year: int, month: int, day: int, days: int) -> (int, int, int) {
    date_of_day_in_year(year, 1, day_of_year(year, month, day) + days)
}

/// A day of the proleptic Gregorian calendar, from year 0 on.
#[derive(Clone, Copy, Debug, PartialEq, Eq, Structural)]
pub struct Date {
    pub year: i32,
    /// 1 = January, ..., 12 = December.
    pub month: u32,
    /// Day of the month, from 1.
    pub day: u32,
}

impl Date {
    pub open spec fn wf(self) -> bool {
        0 <= self.year && is_calendar_date(self.year as int, self.month as int, self.day as int)
    }

    /// The date with the given year, month and day, if it exists and its
    /// year is not negative.
    pub fn new(year: i32, month: u32, day: u32) -> (r: Option<Date>)
        ensures
            r is Some <==> 0 <= year && is_calendar_date(year as int, month as int, day as int),
            r matches Some(d) ==> d.year == year && d.month == month && d.day == day,
    {
        if year >= 0 && calendar_date_exists(year, month, day) {
            Some(Date { year, month, day })
        } else {
            None
        }
    }

    /// Day of the week, Monday being 0 and Sunday 6.
    pub open spec fn weekday_spec(self) -> int {
        weekday_from_monday(self.year as int, self.month as int, self.day as int)
    }

    /// Saturday or Sunday.
    pub open spec fn is_weekend(self) -> bool {
        self.weekday_spec() == 5 || self.weekday_spec() == 6
    }

    /// The date `days` days after this one (before it, for a negative count).
    pub open spec fn plus_days(self, days: int) -> Date {
        let t = date_plus_days(self.year as int, self.month as int, self.day as int, days);
        Date { year: t.0 as i32, month: t.1 as u32, day: t.2 as u32 }
    }
}

/// Relies on `chrono::NaiveDate::from_ymd_opt`: `Some` exactly for the year,
/// month and day of a representable calendar day.
#[verifier::external_body]
fn calendar_date_exists(year: i32, month: u32, day: u32) -> (r: bool)
    ensures
        r == is_calendar_date(year as int, month as int, day as int),
{
    chrono::NaiveDate::from_ymd_opt(year, month, day).is_some()
}

/// Relies on `chrono::Datelike::weekday` with `Weekday::num_days_from_monday`:
/// the day of the week of a date, counted from Monday as 0.
#[verifier::external_body]
pub(crate) fn weekday_of(d: Date) -> (r: u32)
    requires
        d.wf(),
    ensures
        r < 7,
        r == weekday_from_monday(d.year as int, d.month as int, d.day as int),
{
    chrono::NaiveDate::from_ymd_opt(d.year, d.month, d.day).unwrap().weekday().num_days_from_monday()
}

/// Relies on `NaiveDate + chrono::Duration::days`: the date a number of days
/// later. The bounds keep the result inside the same year, where it cannot
/// overflow.
#[verifier::external_body]
pub(crate) fn add_days(d: Date, days: i64) -> (r: Date)
    requires
        d.wf(),
        3 <= d.month <= 10,
        -7 <= days <= 60,
    ensures
        (r.year as int, r.month as int, r.day as int) == date_plus_days(
            d.year as int,
            d.month as int,
            d.day as int,
            days as int,
        ),
{
    let n = chrono::NaiveDate::from_ymd_opt(d.year, d.month, d.day).unwrap() + chrono::Duration::days(days);
    Date { year: n.year(), month: n.month(), day: n.day() }
}

/// A local wall-clock instant: a date and a time of day.
#[derive(Clone, Copy, Debug, PartialEq, Eq, Structural)]
pub struct Timestamp {
    pub date: Date,
    pub hour: u32,
    pub minute: u32,
    pub second: u32,
}

impl Timestamp {
    pub open spec fn wf(self) -> bool {
        self.date.wf() && self.hour < 24 && self.minute < 60 && self.second < 60
    }

    /// Seconds since midnight.
    pub open spec fn seconds_of_day(self) -> int {
        self.hour * 3600 + self.minute * 60 + self.second
    }

    /// The instant at the given time of day, if that time exists.
    pub fn new(date: Date, hour: u32, minute: u32, second: u32) -> (r: Option<Timestamp>)
        ensures
            r is Some <==> hour < 24 && minute < 60 && second < 60,
            r matches Some(t) ==> t.date == date && t.hour == hour && t.minute == minute
                && t.second == second,
    {
        if hour < 24 && minute < 60 && second < 60 {
            Some(Timestamp { date, hour, minute, second })
        } else {
            None
        }
    }

    /// Seconds since midnight.
    pub fn seconds_since_midnight(&self) -> (r: u32)
        requires
            self.wf(),
        ensures
            r == self.seconds_of_day(),
            r < 86400,
    {
        self.hour * 3600 + self.minute * 60 + self.second
    }
}

} // verus!
