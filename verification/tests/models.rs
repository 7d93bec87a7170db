use sleep_api::calendar::{Date, Time};
use sleep_api::domain::DomainError;
use sleep_api::error::ApiError;
use sleep_api::models::{Intensity, NoteInput, Quality, SleepInput};

fn sleep_input(latency_min: i32, awakenings: i32) -> SleepInput {
    SleepInput {
        date: Date::from_ymd(2025, 6, 1).expect("valid date"),
        bed_time: Time::from_hms(23, 0, 0).expect("valid time"),
        wake_time: Time::from_hms(7, 0, 0).expect("valid time"),
        latency_min,
        awakenings,
        quality: Quality(4),
    }
}

#[test]
fn quality_from_raw_score() {
    assert_eq!(Quality(4).value(), 4);
    for v in 1..=5u8 {
        assert_eq!(Quality::try_from(v).expect("valid score").value(), v);
    }
    for v in [0u8, 6, 255] {
        let err = Quality::try_from(v).expect_err("invalid score");
        assert!(matches!(err, DomainError::InvalidQuality));
        assert_eq!(err.to_string(), "quality must be between 1 and 5");
    }
}

#[test]
fn intensity_words() {
    assert_eq!(Intensity::parse("none").expect("a level"), Intensity::Rest);
    assert_eq!(Intensity::parse("light").expect("a level"), Intensity::Light);
    assert_eq!(Intensity::parse("hard").expect("a level"), Intensity::Hard);
    assert_eq!(Intensity::Light.to_string(), "light");
    assert_eq!(Intensity::Rest.as_str(), "none");
    assert_eq!(Intensity::Hard.as_str(), "hard");
    let level: Intensity = "light".parse().expect("a level");
    assert_eq!(level, Intensity::Light);
    let level: Intensity = "none".parse().expect("a level");
    assert_eq!(level, Intensity::Rest);
    let err = "Hard".parse::<Intensity>().expect_err("capital letter");
    assert_eq!(err.to_string(), "invalid intensity: Hard");
    let err = Intensity::parse("Light").expect_err("capital letter");
    assert!(matches!(err, DomainError::InvalidIntensity(_)));
    assert_eq!(err.to_string(), "invalid intensity: Light");
    assert!(Intensity::parse("").is_err());
}

#[test]
fn sleep_input_ranges() {
    assert!(sleep_input(0, 0).validate().is_ok());
    assert!(sleep_input(180, 10).validate().is_ok());
    let err = sleep_input(181, 0).validate().expect_err("latency too long");
    assert_eq!(err.to_string(), "latency_min must be between 0 and 180");
    let err = sleep_input(-1, 11).validate().expect_err("latency comes first");
    assert_eq!(err.to_string(), "latency_min must be between 0 and 180");
    let err = sleep_input(10, 11).validate().expect_err("too many awakenings");
    assert_eq!(err.to_string(), "awakenings must be between 0 and 10");
    let err = sleep_input(10, -1).validate().expect_err("negative awakenings");
    assert!(matches!(err, DomainError::InvalidInput(_)));
}

#[test]
fn note_length_counts_bytes() {
    let date = Date::from_ymd(2025, 6, 1).expect("valid date");
    assert!(NoteInput { date, body: None }.validate().is_ok());
    assert!(NoteInput { date, body: Some("Felt refreshed".to_string()) }.validate().is_ok());
    assert!(NoteInput { date, body: Some("a".repeat(1000)) }.validate().is_ok());
    let err = NoteInput { date, body: Some("a".repeat(1001)) }
        .validate()
        .expect_err("too long");
    assert_eq!(err.to_string(), "body too long");
    // 501 two-byte characters are 1002 bytes
    assert!(NoteInput { date, body: Some("é".repeat(501)) }.validate().is_err());
    assert!(NoteInput { date, body: Some("é".repeat(500)) }.validate().is_ok());
}

#[test]
fn api_error_responses() {
    let e = ApiError::invalid_input("to must be >= from");
    let r = e.into_response();
    assert_eq!((r.status, r.error, r.detail.as_deref()), (400, "invalid input", Some("to must be >= from")));
    assert_eq!(e.to_string(), "invalid input: to must be >= from");
    let r = ApiError::NotFound.into_response();
    assert_eq!((r.status, r.error, r.detail), (404, "not found", None));
    assert_eq!(ApiError::NotFound.to_string(), "not found");
    let e = ApiError::Db("pool timed out".to_string());
    let r = e.into_response();
    assert_eq!((r.status, r.error, r.detail.as_deref()), (500, "database error", Some("pool timed out")));
    assert_eq!(e.to_string(), "database error: pool timed out");
    let e = ApiError::from_domain(&DomainError::InvalidQuality);
    assert_eq!(e.to_string(), "invalid input: quality must be between 1 and 5");
    let e = ApiError::from_domain(&DomainError::InvalidIntensity("x".to_string()));
    assert!(matches!(e, ApiError::InvalidInput(_)));
    assert_eq!(e.into_response().detail.as_deref(), Some("invalid intensity: x"));
}
