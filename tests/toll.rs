use chrono::{Datelike, NaiveDate, Weekday};
use toll_fee::calendar::{Date, Timestamp};
use toll_fee::fees::TollError;
use toll_fee::vehicle::{Car, Motorbike, VehicleExemptionCategory};
use toll_fee::TollCalculator;

fn date(y: i32, m: u32, d: u32) -> Date {
    Date::new(y, m, d).unwrap()
}

fn at(d: Date, h: u32, m: u32) -> Timestamp {
    Timestamp::new(d, h, m, 0).unwrap()
}

/// Tuesday, not a holiday.
fn weekday() -> Date {
    date(2024, 3, 5)
}

const CAR: VehicleExemptionCategory = VehicleExemptionCategory::Car;

#[test]
fn empty_day_costs_nothing() {
    let calc = TollCalculator;
    assert_eq!(calc.get_toll_fee(CAR, vec![]), Ok(0));
    assert_eq!(calc.get_toll_fee(VehicleExemptionCategory::Military, vec![]), Ok(0));
}

#[test]
fn daily_fee_is_capped() {
    let calc = TollCalculator;
    let d = weekday();
    let times = vec![
        at(d, 6, 0),
        at(d, 7, 1),
        at(d, 8, 2),
        at(d, 9, 3),
        at(d, 10, 4),
        at(d, 11, 5),
        at(d, 15, 30),
        at(d, 16, 31),
        at(d, 17, 32),
    ];
    assert_eq!(calc.get_toll_fee(CAR, times), Ok(60));
}

#[test]
fn exempt_vehicles_pay_nothing() {
    let calc = TollCalculator;
    let d = weekday();
    let times = vec![at(d, 7, 0), at(d, 9, 0), at(d, 16, 0)];
    for v in [
        VehicleExemptionCategory::Motorbike,
        VehicleExemptionCategory::Tractor,
        VehicleExemptionCategory::Emergency,
        VehicleExemptionCategory::Diplomat,
        VehicleExemptionCategory::Foreign,
        VehicleExemptionCategory::Military,
    ] {
        assert!(calc.is_toll_free_vehicle(v));
        assert_eq!(calc.get_toll_fee(v, times.clone()), Ok(0));
    }
    assert!(!calc.is_toll_free_vehicle(CAR));
    assert_eq!(calc.get_toll_fee(CAR, times), Ok(18 + 8 + 18));
}

#[test]
fn vehicle_types() {
    assert_eq!(Car.vehicle_type(), VehicleExemptionCategory::Car);
    assert_eq!(Motorbike.vehicle_type(), VehicleExemptionCategory::Motorbike);
}

#[test]
fn weekends_are_free() {
    let calc = TollCalculator;
    let saturday = date(2024, 3, 2);
    let sunday = date(2024, 3, 3);
    assert!(calc.is_toll_free_date(saturday));
    assert!(calc.is_toll_free_date(sunday));
    assert!(!calc.is_toll_free_date(weekday()));
    assert_eq!(calc.get_toll_fee_at(at(saturday, 7, 30), CAR), 0);
    assert_eq!(calc.get_toll_fee_at(at(sunday, 16, 0), CAR), 0);
    assert_eq!(calc.get_toll_fee_at(at(weekday(), 7, 30), CAR), 18);
}

#[test]
fn holidays_are_free() {
    let calc = TollCalculator;
    // Fixed holidays on weekdays, a day in July, and the movable feasts of 2024.
    for d in [
        date(2024, 1, 1),
        date(2024, 12, 24),
        date(2024, 12, 31),
        date(2024, 7, 16),
        date(2024, 3, 29),
        date(2024, 4, 1),
        date(2024, 5, 9),
        date(2024, 6, 21),
    ] {
        assert!(calc.is_toll_free_date(d));
        assert_eq!(calc.get_toll_fee_at(at(d, 7, 30), CAR), 0);
    }
    // Days next to them are not.
    for d in [date(2024, 4, 2), date(2024, 5, 8), date(2024, 6, 20), date(2024, 8, 1)] {
        assert!(!calc.is_toll_free_date(d));
        assert_eq!(calc.get_toll_fee_at(at(d, 7, 30), CAR), 18);
    }
}

#[test]
fn holiday_set_of_2024() {
    let calc = TollCalculator;
    let dates = calc.get_toll_free_dates(2024);
    for d in [
        date(2024, 1, 6),
        date(2024, 5, 1),
        date(2024, 6, 6),
        date(2024, 12, 25),
        date(2024, 12, 26),
        date(2024, 3, 29),
        date(2024, 3, 31),
        date(2024, 4, 1),
        date(2024, 5, 9),
        date(2024, 5, 19),
        date(2024, 6, 21),
        date(2024, 6, 22),
        date(2024, 7, 1),
        date(2024, 7, 31),
    ] {
        assert!(dates.contains(&d), "{:?}", d);
    }
    assert!(!dates.contains(&date(2024, 3, 30)));
    assert!(!dates.contains(&date(2024, 6, 19)));
    assert!(!dates.contains(&date(2023, 12, 25)));
}

#[test]
fn holiday_set_has_no_duplicates() {
    let calc = TollCalculator;
    // 2008: Ascension Day falls on May 1.
    let dates = calc.get_toll_free_dates(2008);
    assert!(dates.contains(&date(2008, 5, 1)));
    assert!(dates.contains(&date(2008, 3, 23)));
    assert_eq!(dates.len(), 45);
    assert_eq!(calc.get_toll_free_dates(2024).len(), 46);
    for (i, a) in dates.iter().enumerate() {
        for b in &dates[i + 1..] {
            assert_ne!(a, b);
        }
    }
}

#[test]
fn year_zero_is_covered() {
    let calc = TollCalculator;
    let dates = calc.get_toll_free_dates(0);
    assert!(dates.contains(&date(0, 7, 31)));
    assert!(dates.contains(&calc.get_easter_sunday(0)));
    let eve = calc.get_midsummer_eve(0);
    assert_eq!((eve.year, eve.month), (0, 6));
    assert!(19 <= eve.day && eve.day <= 25);
    assert_eq!(calc.get_toll_fee_at(at(date(0, 7, 3), 7, 0), CAR), 0);
}

#[test]
fn crossings_within_hour_merge() {
    let calc = TollCalculator;
    let d = weekday();
    assert_eq!(calc.get_toll_fee(CAR, vec![at(d, 9, 0), at(d, 9, 10)]), Ok(8));
    assert_eq!(calc.get_toll_fee(CAR, vec![at(d, 8, 0), at(d, 8, 10)]), Ok(13));
    // The larger fee of the interval is charged once.
    assert_eq!(calc.get_toll_fee(CAR, vec![at(d, 6, 20), at(d, 7, 10)]), Ok(18));
    // Exactly one hour after the start still belongs to the interval.
    assert_eq!(calc.get_toll_fee(CAR, vec![at(d, 6, 0), at(d, 7, 0)]), Ok(18));
}

#[test]
fn crossings_over_hour_apart_add() {
    let calc = TollCalculator;
    let d = weekday();
    assert_eq!(calc.get_toll_fee(CAR, vec![at(d, 7, 0), at(d, 8, 5)]), Ok(31));
    let late = Timestamp::new(d, 7, 0, 1).unwrap();
    assert_eq!(calc.get_toll_fee(CAR, vec![at(d, 6, 0), late]), Ok(8 + 18));
}

#[test]
fn interval_window_anchored_at_start() {
    let calc = TollCalculator;
    let d = weekday();
    // 06:45 lies within an hour of 06:00; 07:10 does not, and opens a new interval.
    let times = vec![at(d, 6, 0), at(d, 6, 45), at(d, 7, 10)];
    assert_eq!(calc.get_toll_fee(CAR, times), Ok(13 + 18));
}

#[test]
fn unordered_crossings_are_sorted() {
    let calc = TollCalculator;
    let d = weekday();
    assert_eq!(calc.get_toll_fee(CAR, vec![at(d, 8, 5), at(d, 7, 0)]), Ok(31));
    assert_eq!(
        calc.get_toll_fee(CAR, vec![at(d, 7, 10), at(d, 6, 45), at(d, 6, 0)]),
        Ok(31)
    );
}

#[test]
fn easter_sunday() {
    let calc = TollCalculator;
    assert_eq!(calc.get_easter_sunday(2024), date(2024, 3, 31));
    assert_eq!(calc.get_easter_sunday(2025), date(2025, 4, 20));
    assert_eq!(calc.get_easter_sunday(2019), date(2019, 4, 21));
    assert_eq!(calc.get_easter_sunday(2038), date(2038, 4, 25));
    assert_eq!(calc.get_easter_sunday(2285), date(2285, 3, 22));
}

#[test]
fn midsummer_eve() {
    let calc = TollCalculator;
    assert_eq!(calc.get_midsummer_eve(2024), date(2024, 6, 21));
    assert_eq!(calc.get_midsummer_eve(2026), date(2026, 6, 19));
    assert_eq!(calc.get_midsummer_eve(2025), date(2025, 6, 20));
}

#[test]
fn mixed_dates_are_refused() {
    let calc = TollCalculator;
    let times = vec![at(weekday(), 7, 0), at(date(2024, 3, 6), 7, 0)];
    assert_eq!(calc.get_toll_fee(CAR, times), Err(TollError::MixedDates));
}

#[test]
fn fee_band_boundaries() {
    let calc = TollCalculator;
    let d = weekday();
    let cases = [
        (5, 59, 0),
        (6, 0, 8),
        (6, 29, 8),
        (6, 30, 13),
        (6, 59, 13),
        (7, 0, 18),
        (7, 59, 18),
        (8, 0, 13),
        (8, 29, 13),
        (8, 30, 8),
        (14, 59, 8),
        (15, 0, 13),
        (15, 29, 13),
        (15, 30, 18),
        (16, 59, 18),
        (17, 0, 13),
        (17, 59, 13),
        (18, 0, 8),
        (18, 29, 8),
        (18, 30, 0),
        (23, 59, 0),
        (0, 0, 0),
    ];
    for (h, m, fee) in cases {
        assert_eq!(calc.get_toll_fee_at(at(d, h, m), CAR), fee, "{}:{}", h, m);
    }
}

#[test]
fn dates_and_times_are_checked() {
    assert!(Date::new(2023, 2, 29).is_none());
    assert!(Date::new(2024, 2, 29).is_some());
    assert!(Date::new(2024, 4, 31).is_none());
    assert!(Date::new(2024, 13, 1).is_none());
    assert!(Date::new(2024, 1, 0).is_none());
    assert!(Date::new(0, 1, 1).is_some());
    assert!(Date::new(0, 2, 29).is_some());
    assert!(Date::new(-1, 1, 1).is_none());
    assert!(Date::new(262142, 12, 31).is_some());
    assert!(Date::new(262143, 1, 1).is_none());
    assert!(Timestamp::new(weekday(), 24, 0, 0).is_none());
    assert!(Timestamp::new(weekday(), 23, 60, 0).is_none());
    assert_eq!(at(weekday(), 1, 2).seconds_since_midnight(), 3720);
}

#[test]
fn leap_years() {
    assert!(TollCalculator::is_leap_year(2024));
    assert!(TollCalculator::is_leap_year(2000));
    assert!(!TollCalculator::is_leap_year(1900));
    assert!(!TollCalculator::is_leap_year(2023));
}

#[test]
fn easter_is_sunday_and_midsummer_eve_friday() {
    let calc = TollCalculator;
    for year in 1583..2600 {
        let e = calc.get_easter_sunday(year);
        let e = NaiveDate::from_ymd_opt(e.year, e.month, e.day).unwrap();
        assert_eq!(e.weekday(), Weekday::Sun, "{}", year);
        assert!(e >= NaiveDate::from_ymd_opt(year, 3, 22).unwrap());
        assert!(e <= NaiveDate::from_ymd_opt(year, 4, 25).unwrap());
        let m = calc.get_midsummer_eve(year);
        let m = NaiveDate::from_ymd_opt(m.year, m.month, m.day).unwrap();
        assert_eq!(m.weekday(), Weekday::Fri, "{}", year);
    }
}
