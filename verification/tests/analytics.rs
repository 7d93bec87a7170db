use sleep_api::calendar::{Date, Time};
use sleep_api::metrics::{
    clock_shift, collect_figures, day_type_timing, duration_baseline, recent_samples,
    schedule_variability, signed_clock_shift, social_jetlag, DayKind, Figure,
};
use sleep_api::personalization::{build_recommendations, evaluate_metrics, personalization, rows_within};
use sleep_api::quality_factors::{
    count_distinct, effect_of, evaluate_factor, quality_factors, rule_of, FactorRule, QualityFactor,
};
use sleep_api::recommend::{
    decide, recommend_day_type, recommend_duration, recommend_quality_factors,
    recommend_regularity, recommend_social_jetlag, ActionStatus, Check, Confidence,
};
use sleep_api::sample::{build_day_sample, build_day_samples, DailySleepRow, DaySample};
use sleep_api::window::{window_coverage, window_pair, WindowBounds};

fn date(y: i32, m: u32, d: u32) -> Date {
    Date::from_ymd(y, m, d).expect("valid date")
}

fn day(n: i32) -> Date {
    // day 0 is Monday 2025-01-06
    date(2025, 1, 6).plus_days(n as u32).expect("in range")
}

fn hm(h: u32, m: u32) -> Time {
    Time::from_hms(h, m, 0).expect("valid time")
}

fn row(on: Date, bed: Time, wake: Time, duration_min: i32, quality: Option<i32>) -> DailySleepRow {
    DailySleepRow { wake_date: on, bed_time: bed, wake_time: wake, duration_min, quality, latency_min: 10 }
}

fn sample(on: Date, midpoint: i32, duration: i32, quality: Option<i32>) -> DaySample {
    DaySample {
        wake_date: on,
        bed_clock_min: 0,
        wake_clock_min: 0,
        bed_relative_min: 0,
        wake_relative_min: 0,
        midpoint_clock_min: midpoint,
        duration_min: duration,
        quality,
        weekend: on.is_weekend(),
    }
}

fn timed(on: Date, bed_relative: i32, wake_relative: i32) -> DaySample {
    DaySample {
        wake_date: on,
        bed_clock_min: bed_relative.rem_euclid(1440),
        wake_clock_min: wake_relative,
        bed_relative_min: bed_relative,
        wake_relative_min: wake_relative,
        midpoint_clock_min: 180,
        duration_min: wake_relative - bed_relative,
        quality: None,
        weekend: on.is_weekend(),
    }
}

#[test]
fn sample_of_a_night_across_midnight() {
    let s = build_day_sample(&row(date(2025, 6, 28), hm(23, 30), hm(7, 15), 465, Some(4)));
    assert_eq!(s.wake_date.ymd(), (2025, 6, 28));
    assert_eq!(s.bed_clock_min, 23 * 60 + 30);
    assert_eq!(s.wake_clock_min, 7 * 60 + 15);
    assert_eq!(s.bed_relative_min, -30);
    assert_eq!(s.wake_relative_min, 7 * 60 + 15);
    // 435 - 232 = 203 minutes after midnight
    assert_eq!(s.midpoint_clock_min, 203);
    assert_eq!(s.duration_min, 465);
    assert_eq!(s.quality, Some(4));
    assert!(s.weekend);
}

#[test]
fn sample_of_a_night_after_midnight() {
    let s = build_day_sample(&row(date(2025, 6, 27), hm(0, 30), hm(6, 0), 330, Some(6)));
    assert_eq!(s.bed_relative_min, 30);
    assert_eq!(s.wake_relative_min, 360);
    assert_eq!(s.midpoint_clock_min, 195);
    assert_eq!(s.quality, None);
    assert!(!s.weekend);
    // the midpoint wraps to the evening before
    let s = build_day_sample(&row(date(2025, 6, 27), hm(20, 0), hm(2, 0), 360, Some(0)));
    assert_eq!(s.midpoint_clock_min, 1380);
    assert_eq!(s.quality, None);
}

#[test]
fn samples_keep_the_order_of_the_rows() {
    let rows = vec![
        row(date(2025, 6, 27), hm(23, 0), hm(7, 0), 480, None),
        row(date(2025, 6, 26), hm(22, 0), hm(6, 0), 480, Some(5)),
    ];
    let samples = build_day_samples(&rows);
    assert_eq!(samples.len(), 2);
    assert_eq!(samples[0].wake_date.ymd(), (2025, 6, 27));
    assert_eq!(samples[1].wake_date.ymd(), (2025, 6, 26));
    assert_eq!(samples[1].quality, Some(5));
}

#[test]
fn figures_by_kind_of_day() {
    // day 0 is a Monday, so days 5 and 6 are the weekend
    let samples: Vec<DaySample> = (0..7).map(|n| sample(day(n), 100 + n, 400 + n, None)).collect();
    assert_eq!(collect_figures(&samples, DayKind::Any, Figure::Duration), vec![400, 401, 402, 403, 404, 405, 406]);
    assert_eq!(collect_figures(&samples, DayKind::Weekend, Figure::Midpoint), vec![105, 106]);
    assert_eq!(collect_figures(&samples, DayKind::Weekday, Figure::Midpoint), vec![100, 101, 102, 103, 104]);
    assert_eq!(collect_figures(&samples, DayKind::Weekend, Figure::BedRelative), vec![0, 0]);
    assert_eq!(collect_figures(&samples, DayKind::Weekend, Figure::WakeRelative), vec![0, 0]);
}

#[test]
fn shifts_round_the_clock() {
    assert_eq!(clock_shift(Some(143_000), Some(1_000)), Some(2_000));
    assert_eq!(clock_shift(None, Some(1_000)), None);
    assert_eq!(clock_shift(Some(1_000), None), None);
    assert_eq!(signed_clock_shift(Some(1_000), Some(143_000)), Some(2_000));
    assert_eq!(signed_clock_shift(Some(143_000), Some(1_000)), Some(-2_000));
    assert_eq!(signed_clock_shift(None, None), None);
}

#[test]
fn duration_baseline_needs_sixty_prior_sessions() {
    let prior: Vec<DaySample> = (0..59).map(|n| sample(day(n), 180, 420 + n, None)).collect();
    let current: Vec<DaySample> = (59..80).map(|n| sample(day(n), 180, 300, None)).collect();
    let m = duration_baseline(&current, &prior);
    assert!(!m.eligible);
    assert!(!m.triggered);
    assert_eq!(m.prior_count, 59);
    let r = recommend_duration(&m);
    assert_eq!(r.action_key, "personal_duration_warning_tuning");
    assert_eq!(r.status, ActionStatus::Suppressed);
    assert_eq!(r.confidence, Confidence::Low);
    assert_eq!(r.suppression_reasons, vec!["needs at least 60 baseline sessions in prior window"]);
}

#[test]
fn duration_baseline_triggers_outside_the_personal_range() {
    // prior durations 400..=460: p10 = 406, p90 = 454, p25 = 415, p75 = 445
    let prior: Vec<DaySample> = (0..61).map(|n| sample(day(n), 180, 400 + n, None)).collect();
    let mut current: Vec<DaySample> = (61..80).map(|n| sample(day(n), 180, 430, None)).collect();
    current.push(sample(day(80), 180, 300, None));
    let m = duration_baseline(&current, &prior);
    assert!(m.eligible);
    assert_eq!((m.prior_count, m.current_count), (61, 20));
    assert_eq!(m.p10_centi, Some(40_600));
    assert_eq!(m.p50_centi, Some(43_000));
    assert_eq!(m.p90_centi, Some(45_400));
    assert_eq!(m.iqr_centi, Some(3_000));
    assert_eq!(m.out_of_range_count, 1);
    assert_eq!(m.out_of_range_pct_centi, 500);
    assert!(m.triggered);
    let r = recommend_duration(&m);
    assert_eq!(r.status, ActionStatus::Recommended);
    assert_eq!(r.confidence, Confidence::Medium);
    assert!(r.suppression_reasons.is_empty());
    // two of twenty are ten percent: strong evidence
    current[0].duration_min = 500;
    let m = duration_baseline(&current, &prior);
    assert_eq!(m.out_of_range_pct_centi, 1_000);
    assert_eq!(recommend_duration(&m).confidence, Confidence::High);
    // none out of range: eligible, but not triggered
    let steady: Vec<DaySample> = (61..80).map(|n| sample(day(n), 180, 430, None)).collect();
    let m = duration_baseline(&steady, &prior);
    assert!(m.eligible && !m.triggered);
    let r = recommend_duration(&m);
    assert_eq!(r.status, ActionStatus::Suppressed);
    assert_eq!(r.suppression_reasons, vec!["fewer than 5% of current sessions fall outside the personal range"]);
}

#[test]
fn duration_baseline_of_empty_windows() {
    let m = duration_baseline(&vec![], &vec![]);
    assert!(!m.eligible && !m.triggered);
    assert_eq!((m.p10_centi, m.p50_centi, m.p90_centi, m.iqr_centi), (None, None, None, None));
    assert_eq!((m.out_of_range_count, m.out_of_range_pct_centi), (0, 0));
    let r = recommend_duration(&m);
    assert_eq!(r.suppression_reasons.len(), 2);
}

#[test]
fn recent_samples_are_the_latest_fourteen() {
    let mut samples: Vec<DaySample> = (0..20).rev().map(|n| sample(day(n), 100, 400, None)).collect();
    samples.swap(3, 17);
    let recent = recent_samples(&samples);
    assert_eq!(recent.len(), 14);
    assert!(recent.iter().all(|s| s.wake_date.days_since(&day(0)) >= 6));
    let few = recent_samples(&samples[..5].to_vec());
    assert_eq!(few.len(), 5);
}

#[test]
fn day_type_timing_is_stable_within_half_an_hour() {
    // two full weeks: 10 weekdays and 4 weekend days in each window
    let prior: Vec<DaySample> = (0..14).map(|n| sample(day(n), if day(n).is_weekend() { 240 } else { 180 }, 450, None)).collect();
    let current: Vec<DaySample> = (14..28).map(|n| sample(day(n), if day(n).is_weekend() { 260 } else { 200 }, 450, None)).collect();
    let m = day_type_timing(&current, &prior);
    assert_eq!((m.weekday_count, m.weekend_count), (10, 4));
    assert_eq!(m.weekday_median_centi, Some(20_000));
    assert_eq!(m.weekend_median_centi, Some(26_000));
    assert_eq!(m.prior_weekday_median_centi, Some(18_000));
    assert_eq!(m.prior_weekend_median_centi, Some(24_000));
    assert_eq!((m.weekday_shift_centi, m.weekend_shift_centi), (Some(2_000), Some(2_000)));
    assert!(m.stable && m.eligible && !m.recent_diverges);
    let r = recommend_day_type(&m);
    assert_eq!(r.action_key, "day_type_default_prefill");
    assert_eq!(r.status, ActionStatus::Recommended);
    assert_eq!(r.confidence, Confidence::Medium);
}

#[test]
fn day_type_timing_suppressed_by_shift_or_divergence() {
    let prior: Vec<DaySample> = (0..14).map(|n| sample(day(n), if day(n).is_weekend() { 240 } else { 180 }, 450, None)).collect();
    // weekdays moved by 31 minutes: not stable
    let current: Vec<DaySample> = (14..28).map(|n| sample(day(n), if day(n).is_weekend() { 240 } else { 211 }, 450, None)).collect();
    let m = day_type_timing(&current, &prior);
    assert_eq!(m.weekday_shift_centi, Some(3_100));
    assert!(!m.stable && !m.eligible);
    let r = recommend_day_type(&m);
    assert_eq!(r.status, ActionStatus::Suppressed);
    assert_eq!(r.suppression_reasons, vec!["midpoint medians are not stable against the prior window"]);
    // weekends moved by 91 minutes: recent data diverges as well
    let current: Vec<DaySample> = (14..28).map(|n| sample(day(n), if day(n).is_weekend() { 331 } else { 180 }, 450, None)).collect();
    let m = day_type_timing(&current, &prior);
    assert!(m.recent_diverges);
    assert_eq!(
        recommend_day_type(&m).suppression_reasons,
        vec!["midpoint medians are not stable against the prior window", "recent sessions diverge from the baseline"]
    );
    // too few samples
    let m = day_type_timing(&current[..7].to_vec(), &prior);
    assert_eq!((m.weekday_count, m.weekend_count), (5, 2));
    let r = recommend_day_type(&m);
    assert_eq!(r.suppression_reasons[0], "needs at least 8 weekday sessions in current window");
    assert_eq!(r.suppression_reasons[1], "needs at least 4 weekend sessions in current window");
}

#[test]
fn social_jetlag_sustained_in_both_windows() {
    let prior: Vec<DaySample> = (0..14).map(|n| sample(day(n), if day(n).is_weekend() { 240 } else { 180 }, 450, None)).collect();
    let current: Vec<DaySample> = (14..28).map(|n| sample(day(n), if day(n).is_weekend() { 210 } else { 180 }, 450, None)).collect();
    let m = social_jetlag(&current, &prior);
    assert_eq!((m.current_weekend_count, m.prior_weekend_count), (4, 4));
    assert_eq!((m.current_delta_centi, m.prior_delta_centi), (Some(3_000), Some(6_000)));
    assert!(m.eligible && m.sustained);
    let r = recommend_social_jetlag(&m);
    assert_eq!(r.action_key, "social_jetlag_schedule_shift_insight");
    assert_eq!((r.status, r.confidence), (ActionStatus::Recommended, Confidence::Medium));
    // earlier on weekends counts as well, and an hour in both windows is strong
    let current: Vec<DaySample> = (14..28).map(|n| sample(day(n), if day(n).is_weekend() { 100 } else { 180 }, 450, None)).collect();
    let m = social_jetlag(&current, &prior);
    assert_eq!(m.current_delta_centi, Some(-8_000));
    assert!(m.sustained);
    assert_eq!(recommend_social_jetlag(&m).confidence, Confidence::High);
    // 29 minutes are not enough
    let current: Vec<DaySample> = (14..28).map(|n| sample(day(n), if day(n).is_weekend() { 209 } else { 180 }, 450, None)).collect();
    let m = social_jetlag(&current, &prior);
    assert!(m.eligible && !m.sustained);
    let r = recommend_social_jetlag(&m);
    assert_eq!(r.suppression_reasons, vec!["weekend shift is not at least 30 minutes in both windows"]);
    // one week holds too few weekend days
    let m = social_jetlag(&current[..7].to_vec(), &prior);
    assert!(!m.eligible && !m.sustained);
    assert_eq!(recommend_social_jetlag(&m).suppression_reasons.len(), 2);
}

#[test]
fn schedule_variability_and_data_gap() {
    let bounds = WindowBounds { from: day(10), to: day(19) };
    // bed times alternate by two hours, wake times by two hours: deviations of 60 each
    let prior: Vec<DaySample> = (0..10).map(|n| timed(day(n), if n % 2 == 0 { -120 } else { 0 }, if n % 2 == 0 { 360 } else { 480 })).collect();
    let current: Vec<DaySample> = (10..20).map(|n| timed(day(n), if n % 2 == 0 { -120 } else { 0 }, if n % 2 == 0 { 360 } else { 480 })).collect();
    let dates: Vec<Date> = current.iter().map(|s| s.wake_date).collect();
    let window = window_coverage(&bounds, &dates);
    let m = schedule_variability(&current, &prior, &window);
    assert_eq!((m.current_variability_centi, m.prior_variability_centi), (Some(6_000), Some(6_000)));
    assert!(m.eligible && m.sustained && !m.high_data_gap);
    let r = recommend_regularity(&m);
    assert_eq!(r.action_key, "regularity_insight_priority");
    assert_eq!((r.status, r.confidence), (ActionStatus::Recommended, Confidence::Medium));
    // four of ten days missing: a high data gap
    let sparse: Vec<DaySample> = current[..6].to_vec();
    let dates: Vec<Date> = sparse.iter().map(|s| s.wake_date).collect();
    let window = window_coverage(&bounds, &dates);
    let m = schedule_variability(&sparse, &prior, &window);
    assert!(m.high_data_gap);
    assert_eq!(recommend_regularity(&m).suppression_reasons, vec!["more than 30% of days are missing in current window"]);
    // three of ten missing is exactly 30 percent: no gap
    let dates: Vec<Date> = current[..7].iter().map(|s| s.wake_date).collect();
    let m = schedule_variability(&current[..7].to_vec(), &prior, &window_coverage(&bounds, &dates));
    assert!(!m.high_data_gap);
    // a single sample has no deviation
    let m = schedule_variability(&current[..1].to_vec(), &prior, &window);
    assert!(!m.eligible && !m.sustained);
    assert_eq!(m.current_variability_centi, None);
    assert_eq!(recommend_regularity(&m).suppression_reasons[0], "needs at least 2 sessions in both windows");
    // steady times: eligible, not sustained
    let steady: Vec<DaySample> = (10..20).map(|n| timed(day(n), -60, 420)).collect();
    let dates: Vec<Date> = steady.iter().map(|s| s.wake_date).collect();
    let m = schedule_variability(&steady, &prior, &window_coverage(&bounds, &dates));
    assert_eq!(m.current_variability_centi, Some(0));
    assert!(m.eligible && !m.sustained);
    // deviations of 90 minutes in both windows are strong evidence
    let wide: Vec<DaySample> = (0..10).map(|n| timed(day(n), if n % 2 == 0 { -180 } else { 0 }, if n % 2 == 0 { 300 } else { 480 })).collect();
    let dates: Vec<Date> = wide.iter().map(|s| s.wake_date).collect();
    let m = schedule_variability(&wide, &wide, &window_coverage(&WindowBounds { from: day(0), to: day(9) }, &dates));
    assert_eq!(m.current_variability_centi, Some(9_000));
    assert_eq!(recommend_regularity(&m).confidence, Confidence::High);
}

#[test]
fn distinct_scores() {
    assert_eq!(count_distinct(&vec![]), 0);
    assert_eq!(count_distinct(&vec![3]), 1);
    assert_eq!(count_distinct(&vec![3, 1, 3, 2, 1, 1]), 3);
    assert_eq!(count_distinct(&vec![5, 5, 5, 5]), 1);
}

#[test]
fn effect_of_a_rule() {
    // favorable: midpoint within 30 minutes of 03:00
    let rule = FactorRule::MidpointNear { center: 18_000 };
    let mut samples: Vec<DaySample> = Vec::new();
    for n in 0..5 {
        samples.push(sample(day(n), 180, 450, Some(5)));
    }
    for n in 5..10 {
        samples.push(sample(day(n), 300, 450, Some(if n < 7 { 2 } else { 3 })));
    }
    samples.push(sample(day(10), 180, 450, None));
    // mean 5 against mean 2.6
    assert_eq!(effect_of(&samples, &rule), Some((240, 1)));
    let rule = FactorRule::MidpointNear { center: 30_000 };
    assert_eq!(effect_of(&samples, &rule), Some((-240, -1)));
    // four on one side are too few
    assert_eq!(effect_of(&samples[1..].to_vec(), &FactorRule::MidpointNear { center: 18_000 }), None);
    let rule = FactorRule::DurationWithin { low: 40_000, high: 50_000 };
    assert_eq!(effect_of(&samples, &rule), None);
    // equal means: no effect, sign 0
    let even: Vec<DaySample> = (0..10).map(|n| sample(day(n), if n < 5 { 180 } else { 300 }, 450, Some(3))).collect();
    assert_eq!(effect_of(&even, &FactorRule::MidpointNear { center: 18_000 }), Some((0, 0)));
    // 17/6 - 3 = -1/6, rounded towards zero
    let mut uneven = even.clone();
    uneven.push(sample(day(10), 180, 450, Some(2)));
    assert_eq!(effect_of(&uneven, &FactorRule::MidpointNear { center: 18_000 }), Some((-16, -1)));
}

#[test]
fn rules_take_their_reference_from_the_right_window() {
    let prior: Vec<DaySample> = (0..11).map(|n| sample(day(n), 180, 400 + 10 * n, None)).collect();
    let current: Vec<DaySample> = (14..21).map(|n| sample(day(n), 200 + n, 450, None)).collect();
    assert_eq!(
        rule_of(QualityFactor::DurationInPersonalRange, &current, &prior),
        Some(FactorRule::DurationWithin { low: 41_000, high: 49_000 })
    );
    assert_eq!(rule_of(QualityFactor::DurationInPersonalRange, &current, &vec![]), None);
    assert_eq!(
        rule_of(QualityFactor::ConsistentMidSleepTiming, &current, &prior),
        Some(FactorRule::MidpointNear { center: 21_700 })
    );
    // days 14 to 18 are the weekdays
    assert_eq!(
        rule_of(QualityFactor::WeekdayScheduleAlignment, &current, &prior),
        Some(FactorRule::MidpointNear { center: 21_600 })
    );
    assert_eq!(rule_of(QualityFactor::WeekdayScheduleAlignment, &current[5..].to_vec(), &prior), None);
}

fn rated_window(first_day: i32) -> Vec<DaySample> {
    // 42 nights. Two of three are good nights: asleep around 03:00 for 450
    // minutes, rated 4 or 5. Every third is a bad night: asleep around 05:00,
    // much too short or much too long, rated 2 or 3.
    (0..42)
        .map(|n| {
            let k = n / 3;
            if n % 3 == 0 {
                let duration = if k % 2 == 0 { 100 + 20 * (k / 2) } else { 800 + 20 * (k / 2) };
                sample(day(first_day + n), 300, duration, Some(2 + k % 2))
            } else {
                sample(day(first_day + n), 180, 450, Some(4 + k % 2))
            }
        })
        .collect()
}

#[test]
fn quality_factors_are_ranked_by_the_size_of_their_effect() {
    let prior = rated_window(0);
    let current = rated_window(42);
    let m = quality_factors(&current, &prior);
    assert_eq!(m.rated_count, 42);
    assert_eq!(m.distinct_qualities, 4);
    assert_eq!(m.factors.len(), 3);
    // the timing factors split good nights from bad ones: 4.5 against 2.5
    assert_eq!(m.factors[0].factor, QualityFactor::ConsistentMidSleepTiming);
    assert_eq!(m.factors[0].effect_centi, 200);
    assert_eq!(m.factors[0].prior_effect_centi, Some(200));
    assert_eq!(m.factors[1].factor, QualityFactor::WeekdayScheduleAlignment);
    assert_eq!(m.factors[1].effect_centi, 200);
    // the personal range leaves out 10 of the 14 bad nights
    assert_eq!(m.factors[2].factor, QualityFactor::DurationInPersonalRange);
    for pair in m.factors.windows(2) {
        assert!(pair[0].effect_centi.abs() >= pair[1].effect_centi.abs());
    }
    for f in &m.factors {
        let alone = evaluate_factor(f.factor, &current, &prior).expect("ranked factors can be computed");
        assert_eq!(alone.effect_centi, f.effect_centi);
        assert_eq!(alone.stable, f.stable);
        assert!(f.stable);
    }
    assert!(m.eligible);
    let r = recommend_quality_factors(&m);
    assert_eq!(r.action_key, "quality_aligned_factor_explanation");
    assert_eq!((r.status, r.confidence), (ActionStatus::Recommended, Confidence::Medium));
}

#[test]
fn quality_factors_need_rated_samples() {
    let prior = rated_window(0);
    let current: Vec<DaySample> = rated_window(42).into_iter().take(39).collect();
    let m = quality_factors(&current, &prior);
    assert_eq!(m.rated_count, 39);
    assert!(!m.eligible);
    let r = recommend_quality_factors(&m);
    assert_eq!(r.status, ActionStatus::Suppressed);
    assert_eq!(r.suppression_reasons[0], "needs at least 40 quality-rated sessions in current window");
    let m = quality_factors(&vec![], &vec![]);
    assert!(!m.eligible);
    assert!(m.factors.is_empty());
    assert_eq!(
        recommend_quality_factors(&m).suppression_reasons,
        vec![
            "needs at least 40 quality-rated sessions in current window",
            "needs at least 3 distinct quality values",
            "factor effects are not stable against the prior window",
        ]
    );
}

#[test]
fn decisions_list_the_failed_preconditions_in_order() {
    let checks = vec![
        Check { holds: false, reason: "first" },
        Check { holds: true, reason: "second" },
        Check { holds: false, reason: "third" },
    ];
    let r = decide("key", "because", &checks, true);
    assert_eq!((r.action_key, r.rationale), ("key", "because"));
    assert_eq!(r.status, ActionStatus::Suppressed);
    assert_eq!(r.confidence, Confidence::Low);
    assert_eq!(r.suppression_reasons, vec!["first", "third"]);
    let r = decide("key", "because", &vec![Check { holds: true, reason: "only" }], true);
    assert_eq!((r.status, r.confidence), (ActionStatus::Recommended, Confidence::High));
    assert!(r.suppression_reasons.is_empty());
    let r = decide("key", "because", &vec![], false);
    assert_eq!((r.status, r.confidence), (ActionStatus::Recommended, Confidence::Medium));
}

#[test]
fn report_covers_both_windows() {
    let as_of = date(2025, 6, 28);
    let mut rows: Vec<DailySleepRow> = Vec::new();
    for n in 0..20u32 {
        let on = as_of.minus_days(n).expect("in range");
        rows.push(row(on, hm(23, 0), hm(7, 0), 480, Some(4)));
    }
    let resp = personalization(as_of, Some(7), &rows).expect("valid request");
    assert_eq!(resp.as_of.ymd(), (2025, 6, 28));
    assert_eq!(resp.window_days, 7);
    assert_eq!(resp.current_window.from.ymd(), (2025, 6, 22));
    assert_eq!(resp.current_window.to.ymd(), (2025, 6, 28));
    assert_eq!(resp.prior_window.from.ymd(), (2025, 6, 15));
    assert_eq!(resp.prior_window.to.ymd(), (2025, 6, 21));
    assert_eq!((resp.current_window.logged_days, resp.current_window.missing_days), (7, 0));
    assert_eq!((resp.prior_window.logged_days, resp.prior_window.missing_days), (7, 0));
    assert_eq!(resp.metrics.duration_baseline.current_count, 7);
    assert_eq!(resp.metrics.duration_baseline.prior_count, 7);
    assert!(!resp.metrics.duration_baseline.eligible);
    assert_eq!(resp.recommendations.len(), 5);
    let keys: Vec<&str> = resp.recommendations.iter().map(|r| r.action_key).collect();
    assert_eq!(
        keys,
        vec![
            "personal_duration_warning_tuning",
            "day_type_default_prefill",
            "social_jetlag_schedule_shift_insight",
            "regularity_insight_priority",
            "quality_aligned_factor_explanation",
        ]
    );
    for r in &resp.recommendations {
        assert_eq!(r.status == ActionStatus::Recommended, r.suppression_reasons.is_empty());
        assert_eq!(r.status == ActionStatus::Suppressed, r.confidence == Confidence::Low);
    }
    assert_eq!(
        resp.recommendations[0].suppression_reasons[0],
        "needs at least 60 baseline sessions in prior window"
    );
}

#[test]
fn report_defaults_to_four_weeks() {
    let as_of = date(2025, 6, 28);
    let resp = personalization(as_of, None, &vec![]).expect("valid request");
    assert_eq!(resp.window_days, 28);
    assert_eq!(resp.current_window.from.ymd(), (2025, 6, 1));
    assert_eq!(resp.prior_window.from.ymd(), (2025, 5, 4));
    assert_eq!(resp.current_window.missing_days_pct_centi, 10_000);
    assert!(resp.metrics.schedule_variability.high_data_gap);
    let err = personalization(as_of, Some(0), &vec![]).expect_err("no window");
    assert_eq!(err.to_string(), "window_days must be between 1 and 365");
    let err = personalization(as_of, Some(400), &vec![]).expect_err("too long");
    assert_eq!(err.to_string(), "window_days must be between 1 and 365");
}

#[test]
fn rows_are_split_by_window() {
    let pair = window_pair(date(2025, 6, 28), 7).expect("valid");
    let rows = vec![
        row(date(2025, 6, 28), hm(23, 0), hm(7, 0), 480, None),
        row(date(2025, 6, 21), hm(23, 0), hm(7, 0), 470, None),
        row(date(2025, 6, 22), hm(23, 0), hm(7, 0), 460, None),
        row(date(2025, 6, 29), hm(23, 0), hm(7, 0), 450, None),
        row(date(2025, 6, 14), hm(23, 0), hm(7, 0), 440, None),
    ];
    let current: Vec<i32> = rows_within(&rows, &pair.current).iter().map(|r| r.duration_min).collect();
    let prior: Vec<i32> = rows_within(&rows, &pair.prior).iter().map(|r| r.duration_min).collect();
    assert_eq!(current, vec![480, 460]);
    assert_eq!(prior, vec![470]);
}

#[test]
fn metrics_and_recommendations_agree_with_the_single_rules() {
    let prior: Vec<DaySample> = (0..14).map(|n| sample(day(n), 180, 450, Some(3))).collect();
    let current: Vec<DaySample> = (14..28).map(|n| sample(day(n), 180, 450, Some(3))).collect();
    let dates: Vec<Date> = current.iter().map(|s| s.wake_date).collect();
    let window = window_coverage(&WindowBounds { from: day(14), to: day(27) }, &dates);
    let m = evaluate_metrics(&current, &prior, &window);
    assert_eq!(m.duration_baseline.p50_centi, duration_baseline(&current, &prior).p50_centi);
    assert_eq!(m.day_type_timing.weekday_count, 10);
    assert_eq!(m.social_jetlag.current_delta_centi, Some(0));
    assert_eq!(m.schedule_variability.current_variability_centi, Some(0));
    assert_eq!(m.quality_factors.distinct_qualities, 1);
    let recs = build_recommendations(&m);
    assert_eq!(recs.len(), 5);
    assert_eq!(recs[1].status, ActionStatus::Recommended);
    assert_eq!(recs[2].suppression_reasons, vec!["weekend shift is not at least 30 minutes in both windows"]);
}
