use sleep_api::calendar::{Date, Time};
use sleep_api::error::ApiError;
use sleep_api::handlers::{create_exercise, create_note, create_sleep, prepare_sleep, update_sleep};
use sleep_api::models::{ExerciseInput, Intensity, NoteInput, Quality, SleepInput};
use sleep_api::requests::{check_range, recent_days, BadRequest};
use sleep_api::time::Zone;

fn date(y: i32, m: u32, d: u32) -> Date {
    Date::from_ymd(y, m, d).expect("valid date")
}

#[test]
fn recent_days_parameter() {
    assert_eq!(recent_days(None), Ok(7));
    assert_eq!(recent_days(Some(1)), Ok(1));
    assert_eq!(recent_days(Some(31)), Ok(31));
    assert_eq!(recent_days(Some(0)), Err(BadRequest::DaysOutOfRange));
    assert_eq!(recent_days(Some(32)), Err(BadRequest::DaysOutOfRange));
    assert_eq!(recent_days(Some(-7)), Err(BadRequest::DaysOutOfRange));
    assert_eq!(BadRequest::DaysOutOfRange.message(), "days must be between 1 and 31");
}

#[test]
fn list_range_parameter() {
    assert_eq!(check_range(&date(2025, 6, 12), &date(2025, 6, 15)), Ok(()));
    assert_eq!(check_range(&date(2025, 6, 12), &date(2025, 6, 12)), Ok(()));
    assert_eq!(check_range(&date(2025, 7, 2), &date(2025, 7, 1)), Err(BadRequest::FromAfterTo));
    assert_eq!(check_range(&date(2025, 1, 1), &date(2025, 3, 15)), Err(BadRequest::RangeTooLong));
    // 62 days are allowed, 63 are not
    assert_eq!(check_range(&date(2025, 1, 1), &date(2025, 3, 3)), Ok(()));
    assert_eq!(check_range(&date(2025, 1, 1), &date(2025, 3, 4)), Err(BadRequest::RangeTooLong));
    assert_eq!(BadRequest::FromAfterTo.message(), "from must be <= to");
    assert_eq!(BadRequest::RangeTooLong.message(), "range must be <= 62 days");
}

#[test]
fn sleep_is_validated_before_its_duration_is_computed() {
    let mut input = SleepInput {
        date: date(2025, 6, 17),
        bed_time: Time::from_hms(22, 0, 0).expect("valid time"),
        wake_time: Time::from_hms(23, 0, 0).expect("valid time"),
        latency_min: 10,
        awakenings: 1,
        quality: Quality(4),
    };
    assert_eq!(create_sleep(&input, &Zone::tokyo()).expect("valid"), 60);
    assert_eq!(update_sleep(&input, &Zone::tokyo()).expect("valid"), 60);
    input.wake_time = Time::from_hms(22, 0, 0).expect("valid time");
    let err = create_sleep(&input, &Zone::tokyo()).expect_err("no duration");
    assert!(matches!(err, ApiError::InvalidInput(_)));
    assert_eq!(err.to_string(), "invalid input: Duration must be positive");
    let prepared = prepare_sleep(&input, &Zone::tokyo());
    assert!(prepared.outcome.is_err());
    assert!(!prepared.bed_fell_back && !prepared.wake_fell_back);
    input.latency_min = 500;
    let err = create_sleep(&input, &Zone::tokyo()).expect_err("latency is checked first");
    assert_eq!(err.to_string(), "invalid input: latency_min must be between 0 and 180");
}

#[test]
fn exercise_and_note_are_validated() {
    let ok = ExerciseInput {
        date: date(2025, 6, 17),
        intensity: Intensity::Light,
        start_time: None,
        duration_min: Some(30),
    };
    assert!(create_exercise(&ok).is_ok());
    let bad = ExerciseInput { duration_min: Some(-1), ..ok };
    let err = create_exercise(&bad).expect_err("negative");
    assert_eq!(err.into_response().status, 400);
    assert!(create_note(&NoteInput { date: date(2025, 6, 17), body: Some("Great workout".to_string()) }).is_ok());
    let err = create_note(&NoteInput { date: date(2025, 6, 17), body: Some("x".repeat(2000)) })
        .expect_err("too long");
    assert_eq!(err.to_string(), "invalid input: body too long");
}
