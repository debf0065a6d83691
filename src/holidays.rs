//! Which days are free of tolls: weekends, fixed public holidays, the movable
//! feasts around Easter, Midsummer, and the whole of July.

use vstd::prelude::*;

use crate::calendar::{
    add_days, date_of_day_in_year, date_plus_days, day_of_year, days_before_month, days_in_month,
    leap_year, weekday_from_monday, weekday_of, Date, MAX_YEAR,
};
use crate::TollCalculator;

verus! {

/// Month and day of Easter Sunday in a Gregorian year, by the anonymous
/// (Meeus/Jones/Butcher) algorithm.
pub open spec fn easter_month_day(year: int) -> (int, int) {
    let a = year % 19;
    let b = year / 100;
    let c = year % 100;
    let d = b / 4;
    let e = b % 4;
    let f = (b + 8) / 25;
    let g = (b - f + 1) / 3;
    let h = (19 * a + b - d - g + 15) % 30;
    let i = c / 4;
    let k = c % 4;
    let l = (32 + 2 * e + 2 * i - h - k) % 7;
    let m = (a + 11 * h + 22 * l) / 451;
    let x = h + l - 7 * m + 114;
    (x / 31, x % 31 + 1)
}

/// Easter Sunday of a year.
pub open spec fn easter_date(year: int) -> Date {
    let md = easter_month_day(year);
    Date { year: year as i32, month: md.0 as u32, day: md.1 as u32 }
}

/// Days from June 19 to the first Friday on or after it.
pub open spec fn days_to_midsummer(year: int) -> int {
    (4 + 7 - weekday_from_monday(year, 6, 19)) % 7
}

/// June 19 of a year.
pub open spec fn june_19(year: int) -> Date {
    Date { year: year as i32, month: 6, day: 19 }
}

/// Midsummer Eve: the first Friday on or after June 19.
pub open spec fn midsummer_eve_date(year: int) -> Date {
    june_19(year).plus_days(days_to_midsummer(year))
}

/// Midsummer Day: the day after Midsummer Eve.
pub open spec fn midsummer_day_date(year: int) -> Date {
    midsummer_eve_date(year).plus_days(1)
}

/// Holidays on the same month and day every year.
pub open spec fn is_fixed_holiday(month: int, day: int) -> bool {
    ||| month == 1 && (day == 1 || day == 6)
    ||| month == 5 && day == 1
    ||| month == 6 && day == 6
    ||| month == 12 && (day == 24 || day == 25 || day == 26 || day == 31)
}

/// Days that lie a fixed distance from Easter Sunday: Good Friday, Easter
/// Sunday, Easter Monday, Ascension Day and Pentecost.
pub open spec fn is_easter_feast(year: int, d: Date) -> bool {
    let e = easter_date(year);
    ||| d == e.plus_days(-2)
    ||| d == e
    ||| d == e.plus_days(1)
    ||| d == e.plus_days(39)
    ||| d == e.plus_days(49)
}

/// The single holidays of a year: fixed holidays, Easter feasts, and
/// Midsummer Eve and Day.
pub open spec fn is_feast_of(year: int, d: Date) -> bool {
    ||| d.year == year && is_fixed_holiday(d.month as int, d.day as int)
    ||| is_easter_feast(year, d)
    ||| d == midsummer_eve_date(year)
    ||| d == midsummer_day_date(year)
}

/// The holiday set of a year: its single holidays and every day of July.
pub open spec fn is_holiday_of(year: int, d: Date) -> bool {
    ||| is_feast_of(year, d)
    ||| d.year == year && d.month == 7 && 1 <= d.day <= 31
}

/// A date on which no toll is charged: a weekend day or a holiday of its year.
pub open spec fn is_toll_free_date_spec(d: Date) -> bool {
    d.is_weekend() || is_holiday_of(d.year as int, d)
}

proof fn lemma_easter_bounds(year: int)
    requires
        0 <= year,
    ensures
        easter_month_day(year).0 == 3 && 15 <= easter_month_day(year).1 <= 31
            || easter_month_day(year).0 == 4 && 1 <= easter_month_day(year).1 <= 26,
{
    let a = year % 19;
    let b = year / 100;
    let c = year % 100;
    let e = b % 4;
    let i = c / 4;
    let k = c % 4;
    let h = (19 * a + b - b / 4 - (b - (b + 8) / 25 + 1) / 3 + 15) % 30;
    let l = (32 + 2 * e + 2 * i - h - k) % 7;
    assert(0 <= a + 11 * h + 22 * l <= 469);
    let m = (a + 11 * h + 22 * l) / 451;
    assert(0 <= m <= 1);
    let x = h + l - 7 * m + 114;
    assert(107 <= x <= 149);
}

/// The days from June 19 to June 26 lie in June, a day apart each.
proof fn lemma_late_june(year: int, k: int)
    requires
        0 <= k <= 7,
    ensures
        date_plus_days(year, 6, 19, k) == (year, 6int, 19 + k),
        weekday_from_monday(year, 6, 19 + k) == (weekday_from_monday(year, 6, 19) + k) % 7,
{
    let feb = days_in_month(year, 2);
    assert(28 <= feb <= 29);
    assert(days_before_month(year, 1) == 0);
    assert(days_before_month(year, 2) == 31);
    assert(days_before_month(year, 3) == 31 + feb);
    assert(days_before_month(year, 4) == 62 + feb);
    assert(days_before_month(year, 5) == 92 + feb);
    assert(days_before_month(year, 6) == 123 + feb);
    assert(days_before_month(year, 7) == 153 + feb);
    let o = day_of_year(year, 6, 19) + k;
    assert(o == 142 + feb + k);
    assert(date_of_day_in_year(year, 1, o) == date_of_day_in_year(year, 2, o));
    assert(date_of_day_in_year(year, 2, o) == date_of_day_in_year(year, 3, o));
    assert(date_of_day_in_year(year, 3, o) == date_of_day_in_year(year, 4, o));
    assert(date_of_day_in_year(year, 4, o) == date_of_day_in_year(year, 5, o));
    assert(date_of_day_in_year(year, 5, o) == date_of_day_in_year(year, 6, o));
    assert(date_of_day_in_year(year, 6, o) == (year, 6int, 19 + k));
}

/// Adds `d` to a list of distinct dates unless it is there already.
fn insert_date(dates: &mut Vec<Date>, d: Date)
    requires
        old(dates)@.no_duplicates(),
    ensures
        final(dates)@.no_duplicates(),
        forall|x: Date| final(dates)@.contains(x) <==> (old(dates)@.contains(x) || x == d),
{
    let mut i: usize = 0;
    while i < dates.len()
        invariant
            i <= dates@.len(),
            dates@.no_duplicates(),
            forall|j: int| 0 <= j < i ==> dates@[j] != d,
        decreases dates@.len() - i,
    {
        if dates[i] == d {
            assert(dates@.contains(d));
            return;
        }
        i = i + 1;
    }
    let ghost before = dates@;
    dates.push(d);
    assert forall|x: Date| dates@.contains(x) <==> (before.contains(x) || x == d) by {
        if before.contains(x) {
            let j = choose|j: int| 0 <= j < before.len() && before[j] == x;
            assert(dates@[j] == x);
        }
        if x == d {
            assert(dates@[before.len() as int] == x);
        }
        if dates@.contains(x) {
            let j = choose|j: int| 0 <= j < dates@.len() && dates@[j] == x;
            if j < before.len() {
                assert(before[j] == x);
            }
        }
    }
}

/// Days from June 19 to the first Friday on or after it.
fn days_until_midsummer(year: i32) -> (r: u32)
    requires
        0 <= year <= MAX_YEAR,
    ensures
        r == days_to_midsummer(year as int),
        r < 7,
{
    let june_19 = Date { year, month: 6, day: 19 };
    (4 + 7 - weekday_of(june_19)) % 7
}

impl TollCalculator {
    /// Easter Sunday of a year.
    pub fn get_easter_sunday(&self, year: i32) -> (r: Date)
        requires
            0 <= year <= MAX_YEAR,
        ensures
            r == easter_date(year as int),
            r.wf(),
            3 <= r.month <= 4,
    {
        proof {
            lemma_easter_bounds(year as int);
        }
        let y: i64 = year as i64;
        let a: i64 = y % 19;
        let b: i64 = y / 100;
        let c: i64 = y % 100;
        let d: i64 = b / 4;
        let e: i64 = b % 4;
        let f: i64 = (b + 8) / 25;
        let g: i64 = (b - f + 1) / 3;
        assert(0 <= 19 * a + b - d - g + 15) by (nonlinear_arith)
            requires
                0 <= a,
                0 <= b,
                d * 4 <= b,
                0 <= f,
                g * 3 <= b - f + 1,
        ;
        let h: i64 = (19 * a + b - d - g + 15) % 30;
        let i: i64 = c / 4;
        let k: i64 = c % 4;
        let l: i64 = (32 + 2 * e + 2 * i - h - k) % 7;
        let m: i64 = (a + 11 * h + 22 * l) / 451;
        let month: i64 = (h + l - 7 * m + 114) / 31;
        let day: i64 = (h + l - 7 * m + 114) % 31 + 1;
        Date { year, month: month as u32, day: day as u32 }
    }

    /// Midsummer Eve of a year: the first Friday on or after June 19.
    pub fn get_midsummer_eve(&self, year: i32) -> (r: Date)
        requires
            0 <= year <= MAX_YEAR,
        ensures
            r == midsummer_eve_date(year as int),
            r.wf(),
            r.year == year && r.month == 6 && 19 <= r.day <= 25,
            r.weekday_spec() == 4,
    {
        let june_19 = Date { year, month: 6, day: 19 };
        let days = days_until_midsummer(year);
        proof {
            lemma_late_june(year as int, days as int);
        }
        add_days(june_19, days as i64)
    }

    /// Every holiday of a year: `r` holds a date exactly when it is in the
    /// holiday set of `year`.
    pub fn get_toll_free_dates(&self, year: i32) -> (r: Vec<Date>)
        requires
            0 <= year <= MAX_YEAR,
        ensures
            r@.no_duplicates(),
            forall|d: Date| r@.contains(d) <==> is_holiday_of(year as int, d),
    {
        let easter_sunday = self.get_easter_sunday(year);
        let midsummer_eve = self.get_midsummer_eve(year);
        let feasts = [
            Date { year, month: 1, day: 1 },
            Date { year, month: 1, day: 6 },
            Date { year, month: 5, day: 1 },
            Date { year, month: 6, day: 6 },
            Date { year, month: 12, day: 24 },
            Date { year, month: 12, day: 25 },
            Date { year, month: 12, day: 26 },
            Date { year, month: 12, day: 31 },
            add_days(easter_sunday, -2),
            easter_sunday,
            add_days(easter_sunday, 1),
            add_days(easter_sunday, 39),
            add_days(easter_sunday, 49),
            midsummer_eve,
            add_days(midsummer_eve, 1),
        ];
        let mut dates: Vec<Date> = Vec::new();
        let mut i: usize = 0;
        while i < 15
            invariant
                i <= 15,
                dates@.no_duplicates(),
                forall|x: Date| dates@.contains(x) <==> exists|j: int| 0 <= j < i && feasts@[j] == x,
            decreases 15 - i,
        {
            insert_date(&mut dates, feasts[i]);
            i = i + 1;
        }
        proof {
            assert forall|x: Date| dates@.contains(x) <==> is_feast_of(year as int, x) by {
                if is_feast_of(year as int, x) {
                    if x.year == year && is_fixed_holiday(x.month as int, x.day as int) {
                        assert(x.month == 1 && x.day == 1 ==> feasts@[0] == x);
                        assert(x.month == 1 && x.day == 6 ==> feasts@[1] == x);
                        assert(x.month == 5 ==> feasts@[2] == x);
                        assert(x.month == 6 ==> feasts@[3] == x);
                        assert(x.month == 12 && x.day == 24 ==> feasts@[4] == x);
                        assert(x.month == 12 && x.day == 25 ==> feasts@[5] == x);
                        assert(x.month == 12 && x.day == 26 ==> feasts@[6] == x);
                        assert(x.month == 12 && x.day == 31 ==> feasts@[7] == x);
                    } else {
                        assert(exists|j: int| 8 <= j < 15 && feasts@[j] == x);
                    }
                }
            }
        }
        let mut day: u32 = 1;
        while day <= 31
            invariant
                1 <= day <= 32,
                dates@.no_duplicates(),
                forall|x: Date|
                    dates@.contains(x) <==> (is_feast_of(year as int, x) || (x.year == year
                        && x.month == 7 && 1 <= x.day < day)),
            decreases 32 - day,
        {
            insert_date(&mut dates, Date { year, month: 7, day });
            day = day + 1;
        }
        dates
    }

    /// Whether no toll is charged on a date.
    pub fn is_toll_free_date(&self, date: Date) -> (r: bool)
        requires
            date.wf(),
        ensures
            r == is_toll_free_date_spec(date),
    {
        let weekday = weekday_of(date);
        if weekday == 5 || weekday == 6 {
            return true;
        }
        let dates = self.get_toll_free_dates(date.year);
        let mut i: usize = 0;
        while i < dates.len()
            invariant
                i <= dates@.len(),
                forall|j: int| 0 <= j < i ==> dates@[j] != date,
                forall|d: Date| dates@.contains(d) <==> is_holiday_of(date.year as int, d),
                !date.is_weekend(),
            decreases dates@.len() - i,
        {
            if dates[i] == date {
                assert(dates@.contains(date));
                return true;
            }
            i = i + 1;
        }
        false
    }

    /// Leap years of the Gregorian calendar.
    pub fn is_leap_year(year: i32) -> (r: bool)
        ensures
            r == leap_year(year as int),
    {
        (year % 4 == 0 && year % 100 != 0) || (year % 400 == 0)
    }
}

} // verus!
