use sleep_api::calendar::{Date, MIN_DAY};
use sleep_api::window::{window_coverage, window_pair, WindowBounds};

fn date(y: i32, m: u32, d: u32) -> Date {
    Date::from_ymd(y, m, d).expect("valid date")
}

#[test]
fn seven_day_windows_before_a_date() {
    let pair = window_pair(date(2025, 6, 28), 7).expect("valid window");
    assert_eq!(pair.current.from.ymd(), (2025, 6, 22));
    assert_eq!(pair.current.to.ymd(), (2025, 6, 28));
    assert_eq!(pair.prior.from.ymd(), (2025, 6, 15));
    assert_eq!(pair.prior.to.ymd(), (2025, 6, 21));
    assert_eq!(pair.current.to.days_since(&pair.current.from) + 1, 7);
    assert_eq!(pair.prior.to.days_since(&pair.prior.from) + 1, 7);
    assert_eq!(pair.current.from.days_since(&pair.prior.to), 1);
}

#[test]
fn window_of_one_day() {
    let pair = window_pair(date(2025, 1, 1), 1).expect("valid window");
    assert_eq!(pair.current.from.ymd(), (2025, 1, 1));
    assert_eq!(pair.current.to.ymd(), (2025, 1, 1));
    assert_eq!(pair.prior.from.ymd(), (2024, 12, 31));
    assert_eq!(pair.prior.to.ymd(), (2024, 12, 31));
}

#[test]
fn window_length_must_lie_between_1_and_365() {
    for days in [0, -1, 366, i32::MAX, i32::MIN] {
        let err = window_pair(date(2025, 6, 28), days).expect_err("out of range");
        assert_eq!(err.to_string(), "window_days must be between 1 and 365");
    }
    assert!(window_pair(date(2025, 6, 28), 365).is_ok());
}

#[test]
fn window_before_the_calendar_is_rejected() {
    let early = Date::from_days_from_ce(MIN_DAY + 12).expect("in range");
    let err = window_pair(early, 7).expect_err("prior window starts before the first day");
    assert_eq!(err.to_string(), "invalid date (underflow)");
    let pair = window_pair(Date::from_days_from_ce(MIN_DAY + 13).expect("in range"), 7).expect("fits");
    assert_eq!(pair.prior.from.days_from_ce(), MIN_DAY);
}

#[test]
fn coverage_counts_each_day_once() {
    let bounds = WindowBounds { from: date(2025, 6, 22), to: date(2025, 6, 28) };
    let dates = vec![
        date(2025, 6, 22),
        date(2025, 6, 24),
        date(2025, 6, 24),
        date(2025, 6, 28),
        date(2025, 6, 29),
        date(2025, 6, 21),
    ];
    let w = window_coverage(&bounds, &dates);
    assert_eq!(w.logged_days, 3);
    assert_eq!(w.missing_days, 4);
    // 4 / 7 = 57.142857... percent
    assert_eq!(w.missing_days_pct_centi, 5_714);
    let none = window_coverage(&bounds, &vec![]);
    assert_eq!((none.logged_days, none.missing_days, none.missing_days_pct_centi), (0, 7, 10_000));
    let backwards = WindowBounds { from: date(2025, 6, 28), to: date(2025, 6, 22) };
    let w = window_coverage(&backwards, &dates);
    assert_eq!((w.logged_days, w.missing_days, w.missing_days_pct_centi), (0, 0, 0));
}
