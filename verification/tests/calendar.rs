use chrono::{Datelike, NaiveDate};
use sleep_api::calendar::{Date, Time, MAX_DAY, MIN_DAY, UNIX_EPOCH_DAY};

#[test]
fn day_numbers_follow_the_civil_calendar() {
    let epoch = Date::from_ymd(1970, 1, 1).expect("valid date");
    assert_eq!(epoch.days_from_ce(), UNIX_EPOCH_DAY);
    assert_eq!(Date::from_ymd(1, 1, 1).expect("valid").days_from_ce(), 1);
    assert_eq!(Date::from_ymd(0, 12, 31).expect("valid").days_from_ce(), 0);
    assert_eq!(Date::from_ymd(9999, 12, 31).expect("valid").days_from_ce(), 3_652_059);
    assert_eq!(MIN_DAY, NaiveDate::MIN.num_days_from_ce());
    assert_eq!(MAX_DAY, NaiveDate::MAX.num_days_from_ce());
    assert_eq!(Date::from_days_from_ce(MIN_DAY).expect("first").ymd(), (-262_143, 1, 1));
    assert_eq!(Date::from_days_from_ce(MAX_DAY).expect("last").ymd(), (262_142, 12, 31));
    assert_eq!(Date::from_ymd(2025, 6, 28).expect("valid").ymd(), (2025, 6, 28));
}

#[test]
fn dates_outside_the_calendar_are_refused() {
    assert!(Date::from_ymd(-262_144, 12, 31).is_none());
    assert!(Date::from_ymd(262_143, 1, 1).is_none());
    assert!(Date::from_ymd(10_000, 1, 1).is_some());
    assert!(Date::from_ymd(2025, 2, 29).is_none());
    assert!(Date::from_ymd(2025, 13, 1).is_none());
    assert!(Date::from_days_from_ce(0).is_some());
    assert!(Date::from_days_from_ce(MIN_DAY - 1).is_none());
    assert!(Date::from_days_from_ce(MIN_DAY).is_some());
    assert!(Date::from_days_from_ce(i32::MIN).is_none());
    assert!(Date::from_days_from_ce(i32::MAX).is_none());
    assert!(Date::from_days_from_ce(MAX_DAY + 1).is_none());
    assert!(Date::from_days_from_ce(MAX_DAY).is_some());
}

#[test]
fn weekday_agrees_with_chrono() {
    for (y, m, d) in [
        (1, 1, 1),
        (1970, 1, 1),
        (2000, 2, 29),
        (2025, 6, 28),
        (2025, 6, 29),
        (9999, 12, 31),
        (0, 12, 31),
        (0, 12, 25),
        (-44, 3, 15),
        (-262_143, 1, 1),
        (262_142, 12, 31),
    ] {
        let ours = Date::from_ymd(y, m, d).expect("valid date");
        let theirs = NaiveDate::from_ymd_opt(y, m, d).expect("valid date");
        assert_eq!(ours.weekday_index() as u32, theirs.weekday().num_days_from_monday());
        assert_eq!(ours.is_weekend(), theirs.weekday().num_days_from_monday() >= 5);
        assert_eq!(ours.days_from_ce(), theirs.num_days_from_ce());
    }
    assert!(Date::from_ymd(2025, 6, 28).expect("saturday").is_weekend());
    assert!(!Date::from_ymd(2025, 6, 27).expect("friday").is_weekend());
}

#[test]
fn iso_week_and_text() {
    let d = Date::from_ymd(2014, 12, 29).expect("valid date");
    assert_eq!(d.iso_week(), (2015, 1));
    assert_eq!(d.format_ymd(), "2014-12-29");
    let d = Date::from_ymd(2025, 6, 28).expect("valid date");
    assert_eq!(d.iso_week(), (2025, 26));
    assert_eq!(Date::from_ymd(33, 3, 3).expect("valid date").format_ymd(), "0033-03-03");
}

#[test]
fn dates_are_read_from_text() {
    let d = Date::parse_ymd("2025-06-28").expect("a date");
    assert_eq!(d.ymd(), (2025, 6, 28));
    assert!(Date::parse_ymd("2025-06-31").is_none());
    assert!(Date::parse_ymd("28.06.2025").is_none());
    assert!(Date::parse_ymd("").is_none());
    assert_eq!(Date::parse_ymd("+10000-01-01").expect("a date").ymd(), (10_000, 1, 1));
    assert_eq!(Date::parse_ymd("0000-01-01").expect("a date").ymd(), (0, 1, 1));
    assert_eq!(Date::parse_ymd("-0001-12-31").expect("a date").days_from_ce(), -366);
    assert!(Date::parse_ymd("+300000-01-01").is_none());
}

#[test]
fn day_arithmetic() {
    let d = Date::from_ymd(2025, 3, 1).expect("valid date");
    assert_eq!(d.pred().expect("a day before").ymd(), (2025, 2, 28));
    assert_eq!(d.minus_days(60).expect("in range").ymd(), (2024, 12, 31));
    assert_eq!(d.plus_days(31).expect("in range").ymd(), (2025, 4, 1));
    assert_eq!(d.days_since(&Date::from_ymd(2025, 1, 1).expect("valid date")), 59);
    assert!(Date::from_days_from_ce(MIN_DAY).expect("first").pred().is_none());
    assert!(Date::from_days_from_ce(MIN_DAY + 4).expect("early").minus_days(5).is_none());
    assert!(Date::from_days_from_ce(MIN_DAY + 4).expect("early").minus_days(4).is_some());
    assert_eq!(Date::from_days_from_ce(5).expect("early").minus_days(5).expect("year 0").ymd(), (0, 12, 31));
    assert!(Date::from_days_from_ce(MAX_DAY).expect("last").minus_days(u32::MAX).is_none());
    assert!(Date::from_days_from_ce(MIN_DAY).expect("first").plus_days(u32::MAX).is_none());
    let span = (MAX_DAY as i64 - MIN_DAY as i64) as u32;
    assert_eq!(Date::from_days_from_ce(MIN_DAY).expect("first").plus_days(span).expect("last").days_from_ce(), MAX_DAY);
    assert_eq!(Date::from_days_from_ce(MAX_DAY).expect("last").minus_days(span).expect("first").days_from_ce(), MIN_DAY);
    assert!(Date::from_days_from_ce(MAX_DAY).expect("last").plus_days(1).is_none());
    assert!(d.minus_days(u32::MAX).is_none());
    assert!(d.is_before(&d.plus_days(1).expect("in range")));
    assert!(!d.is_before(&d));
    assert!(d.same_day(&Date::from_ymd(2025, 3, 1).expect("valid date")));
}

#[test]
fn times_of_day() {
    let t = Time::from_hms(23, 59, 58).expect("valid time");
    assert_eq!((t.hour(), t.minute(), t.second(), t.nanosecond()), (23, 59, 58, 0));
    assert_eq!(t.seconds_from_midnight(), 86_398);
    assert_eq!(t.clock_minutes(), 1439);
    assert!(Time::from_hms(24, 0, 0).is_none());
    assert!(Time::from_hms(0, 60, 0).is_none());
    assert!(Time::from_hms(0, 0, 60).is_none());
    assert!(Time::from_hms_nano(0, 0, 0, 1_000_000_000).is_none());
    let a = Time::from_hms_nano(7, 0, 0, 1).expect("valid time");
    let b = Time::from_hms(7, 0, 0).expect("valid time");
    assert!(a.is_after(&b));
    assert!(!b.is_after(&a));
    assert!(!a.is_after(&a));
    assert!(Time::from_hms(7, 0, 1).expect("valid time").is_after(&a));
}
