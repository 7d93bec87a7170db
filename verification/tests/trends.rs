use sleep_api::calendar::{Date, Time};
use sleep_api::trends::{
    check_range_span, label_of, parse_and_validate_date_range, parse_bucket, parse_date_field,
    read_bars_query, read_trends_query, sleep_bars, summary, Bucket, RangeQuery, SleepBarRow,
    SummaryRow,
};

fn date(y: i32, m: u32, d: u32) -> Date {
    Date::from_ymd(y, m, d).expect("valid date")
}

fn row(y: i32, m: u32, d: u32, duration_min: i32, quality: i32, latency_min: i32) -> SummaryRow {
    SummaryRow { wake_date: date(y, m, d), duration_min, quality, latency_min }
}

fn query(from: &str, to: &str, bucket: Option<&str>) -> RangeQuery {
    RangeQuery { from: from.to_string(), to: to.to_string(), bucket: bucket.map(|b| b.to_string()) }
}

#[test]
fn date_fields() {
    assert_eq!(parse_date_field("2025-06-16", "from").expect("a date").ymd(), (2025, 6, 16));
    let err = parse_date_field("junk", "from").expect_err("no date");
    assert_eq!(err.to_string(), "invalid input: invalid from date");
    let err = parse_date_field("2025-02-30", "to").expect_err("no such day");
    assert_eq!(err.to_string(), "invalid input: invalid to date");
}

#[test]
fn date_ranges() {
    let (from, to) = parse_and_validate_date_range("2025-06-16", "2025-06-19").expect("valid");
    assert_eq!((from.ymd(), to.ymd()), ((2025, 6, 16), (2025, 6, 19)));
    assert!(parse_and_validate_date_range("2025-06-16", "2025-06-16").is_ok());
    let err = parse_and_validate_date_range("2025-06-19", "2025-06-16").expect_err("backwards");
    assert_eq!(err.to_string(), "invalid input: to must be >= from");
    let err = parse_and_validate_date_range("x", "y").expect_err("from comes first");
    assert_eq!(err.to_string(), "invalid input: invalid from date");
    let err = parse_and_validate_date_range("2025-06-16", "y").expect_err("bad to");
    assert_eq!(err.to_string(), "invalid input: invalid to date");
}

#[test]
fn range_span() {
    assert!(check_range_span(&date(2025, 1, 1), &date(2025, 3, 3)).is_ok());
    let err = check_range_span(&date(2025, 1, 1), &date(2025, 3, 4)).expect_err("63 days");
    assert_eq!(err.to_string(), "invalid input: range must be <= 62 days");
    let err = check_range_span(&date(2025, 3, 4), &date(2025, 1, 1)).expect_err("backwards");
    assert_eq!(err.to_string(), "invalid input: from must be <= to");
}

#[test]
fn bucket_names() {
    assert_eq!(parse_bucket(None).expect("default"), Bucket::Day);
    assert_eq!(parse_bucket(Some("day")).expect("day"), Bucket::Day);
    assert_eq!(parse_bucket(Some("week")).expect("week"), Bucket::Week);
    let err = parse_bucket(Some("month")).expect_err("unknown");
    assert_eq!(err.to_string(), "invalid input: bucket must be day or week");
    assert!(parse_bucket(Some("Day")).is_err());
}

#[test]
fn trends_query() {
    let r = read_trends_query(&query("2025-06-16", "2025-06-19", None)).expect("valid");
    assert_eq!((r.from.ymd(), r.to.ymd(), r.bucket), ((2025, 6, 16), (2025, 6, 19), Bucket::Day));
    let r = read_trends_query(&query("2025-06-16", "2025-06-19", Some("week"))).expect("valid");
    assert_eq!(r.bucket, Bucket::Week);
    let err = read_trends_query(&query("2025-01-01", "2025-12-31", Some("month"))).expect_err("bucket first");
    assert_eq!(err.to_string(), "invalid input: bucket must be day or week");
    let err = read_trends_query(&query("2025-01-01", "2025-12-31", Some("week"))).expect_err("too long");
    assert_eq!(err.to_string(), "invalid input: range must be <= 62 days");
    let err = read_trends_query(&query("2025-01-01", "2025-12-31", None)).expect_err("too long");
    assert_eq!(err.to_string(), "invalid input: range must be <= 62 days");
    let err = read_trends_query(&query("2025-06-16", "2025-06-19", Some("bad"))).expect_err("bucket");
    assert_eq!(err.to_string(), "invalid input: bucket must be day or week");
    let err = read_trends_query(&query("2025-06-19", "2025-06-16", Some("bad"))).expect_err("order");
    assert_eq!(err.to_string(), "invalid input: to must be >= from");
}

#[test]
fn bars_follow_the_rows() {
    let rows = vec![
        SleepBarRow {
            wake_date: date(2025, 6, 17),
            bed_time: Time::from_hms(23, 15, 0).expect("valid time"),
            wake_time: Time::from_hms(7, 0, 0).expect("valid time"),
            quality: Some(4),
            duration_min: Some(465),
        },
        SleepBarRow {
            wake_date: date(2025, 6, 18),
            bed_time: Time::from_hms(22, 30, 0).expect("valid time"),
            wake_time: Time::from_hms(6, 20, 0).expect("valid time"),
            quality: None,
            duration_min: None,
        },
    ];
    let bars = sleep_bars(&rows);
    assert_eq!(bars.len(), 2);
    assert_eq!(bars[0].date.ymd(), (2025, 6, 17));
    assert_eq!(bars[0].bed_time.clock_minutes(), 23 * 60 + 15);
    assert_eq!(bars[0].wake_time.clock_minutes(), 7 * 60);
    assert_eq!((bars[0].quality, bars[0].duration_min), (Some(4), Some(465)));
    assert_eq!(bars[1].date.ymd(), (2025, 6, 18));
    assert_eq!((bars[1].quality, bars[1].duration_min), (None, None));
    assert!(sleep_bars(&vec![]).is_empty());
}

#[test]
fn labels() {
    let d = date(2025, 6, 28);
    assert_eq!(label_of(Bucket::Day, &d), "2025-06-28");
    assert_eq!(label_of(Bucket::Week, &d), "2025-W26");
    assert_eq!(label_of(Bucket::Week, &date(2025, 1, 1)), "2025-W01");
    assert_eq!(label_of(Bucket::Week, &date(2024, 12, 30)), "2025-W01");
}

#[test]
fn summary_by_day() {
    let rows = vec![
        row(2025, 6, 18, 420, 3, 20),
        row(2025, 6, 17, 480, 4, 10),
        row(2025, 6, 17, 300, 5, 30),
    ];
    let s = summary(&rows, Bucket::Day);
    assert_eq!(s.duration_by_bucket.len(), 2);
    assert_eq!(s.quality_by_bucket.len(), 2);
    assert_eq!(s.latency_by_bucket.len(), 2);
    let d = &s.duration_by_bucket[0];
    assert_eq!((d.bucket.as_str(), d.count, d.total_min, d.min_min, d.max_min), ("2025-06-17", 2, 780, 300, 480));
    let q = &s.quality_by_bucket[0];
    assert_eq!((q.bucket.as_str(), q.count, q.total), ("2025-06-17", 2, 9));
    let l = &s.latency_by_bucket[0];
    assert_eq!((l.bucket.as_str(), l.median_centi), ("2025-06-17", 2_000));
    let d = &s.duration_by_bucket[1];
    assert_eq!((d.bucket.as_str(), d.count, d.total_min, d.min_min, d.max_min), ("2025-06-18", 1, 420, 420, 420));
    assert_eq!(s.latency_by_bucket[1].median_centi, 2_000);
    assert_eq!(s.quality_by_bucket[1].total, 3);
}

#[test]
fn summary_by_week() {
    let rows = vec![
        row(2025, 6, 23, 400, 3, 5),
        row(2025, 6, 16, 480, 4, 10),
        row(2025, 6, 22, 420, 2, 40),
        row(2025, 6, 19, 450, 5, 20),
        row(2025, 6, 29, 500, 4, 15),
    ];
    let s = summary(&rows, Bucket::Week);
    assert_eq!(s.duration_by_bucket.len(), 2);
    let d = &s.duration_by_bucket[0];
    assert_eq!((d.bucket.as_str(), d.count, d.total_min, d.min_min, d.max_min), ("2025-W25", 3, 1350, 420, 480));
    assert_eq!(s.latency_by_bucket[0].median_centi, 2_000);
    assert_eq!(s.quality_by_bucket[0].total, 11);
    let d = &s.duration_by_bucket[1];
    assert_eq!((d.bucket.as_str(), d.count, d.total_min), ("2025-W26", 2, 900));
    // the mean of the two middle latencies, 5 and 15
    assert_eq!(s.latency_by_bucket[1].median_centi, 1_000);
    assert_eq!(s.latency_by_bucket[1].bucket, "2025-W26");
}

#[test]
fn summary_of_no_rows_is_empty() {
    let s = summary(&vec![], Bucket::Day);
    assert!(s.duration_by_bucket.is_empty());
    assert!(s.quality_by_bucket.is_empty());
    assert!(s.latency_by_bucket.is_empty());
}

#[test]
fn bars_query_does_not_look_at_the_bucket() {
    let (from, to) = read_bars_query(&query("2025-06-16", "2025-06-19", Some("month"))).expect("valid");
    assert_eq!((from.ymd(), to.ymd()), ((2025, 6, 16), (2025, 6, 19)));
    let err = read_bars_query(&query("2025-01-01", "2025-12-31", Some("month"))).expect_err("too long");
    assert_eq!(err.to_string(), "invalid input: range must be <= 62 days");
    let err = read_bars_query(&query("2025-06-19", "2025-06-16", None)).expect_err("backwards");
    assert_eq!(err.to_string(), "invalid input: to must be >= from");
    let err = read_bars_query(&query("x", "2025-06-16", None)).expect_err("no date");
    assert_eq!(err.to_string(), "invalid input: invalid from date");
}

#[test]
fn dates_far_from_today_are_read() {
    let (from, to) = parse_and_validate_date_range("0000-01-01", "0001-01-01").expect("valid");
    assert_eq!((from.ymd(), to.ymd()), ((0, 1, 1), (1, 1, 1)));
    let (from, to) = parse_and_validate_date_range("-0044-03-15", "+10000-01-01").expect("valid");
    assert_eq!((from.ymd(), to.ymd()), ((-44, 3, 15), (10_000, 1, 1)));
}

#[test]
fn summary_comes_in_the_order_of_the_labels() {
    // Labels are compared as texts: a sign comes before every digit, and of
    // two years before year 0 the one nearer to it comes first.
    let rows = vec![
        row(2025, 6, 17, 400, 3, 10),
        row(-2, 6, 17, 410, 3, 10),
        row(10_000, 1, 1, 420, 3, 10),
        row(-1, 6, 17, 430, 3, 10),
        row(2025, 6, 17, 440, 3, 10),
        row(999, 6, 17, 450, 3, 10),
    ];
    let s = summary(&rows, Bucket::Day);
    let labels: Vec<&str> = s.duration_by_bucket.iter().map(|d| d.bucket.as_str()).collect();
    assert_eq!(labels, vec!["+10000-01-01", "-0001-06-17", "-0002-06-17", "0999-06-17", "2025-06-17"]);
    let mut sorted = labels.clone();
    sorted.sort();
    assert_eq!(labels, sorted);
    assert_eq!(s.duration_by_bucket[4].count, 2);
    assert_eq!(s.duration_by_bucket[4].total_min, 840);
    let quality: Vec<&str> = s.quality_by_bucket.iter().map(|d| d.bucket.as_str()).collect();
    let latency: Vec<&str> = s.latency_by_bucket.iter().map(|d| d.bucket.as_str()).collect();
    assert_eq!(quality, labels);
    assert_eq!(latency, labels);
}
