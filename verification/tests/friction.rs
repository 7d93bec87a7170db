use sleep_api::calendar::{Date, MIN_DAY};
use sleep_api::friction::{
    aggregate_error_kind, aggregate_friction_window, estimate_benefit, friction_backlog,
    rank_proposals, FrictionBacklogProposal, ObservedEvidence,
};
use sleep_api::models::{FrictionTelemetryEvent, FrictionTelemetryInput};
use sleep_api::recommend::Confidence;

fn date(y: i32, m: u32, d: u32) -> Date {
    Date::from_ymd(y, m, d).expect("valid date")
}

fn event(id: i64, on: Date, input: FrictionTelemetryInput) -> FrictionTelemetryEvent {
    FrictionTelemetryEvent {
        id,
        recorded_on: on,
        form_time_ms: input.form_time_ms,
        error_kind: input.error_kind,
        retry_count: input.retry_count,
        immediate_edit: input.immediate_edit,
        follow_up_failure: input.follow_up_failure,
    }
}

fn failed(id: i64, on: Date, kind: &str, form_time_ms: i32, retry_count: i32, follow_up_failure: bool) -> FrictionTelemetryEvent {
    FrictionTelemetryEvent {
        id,
        recorded_on: on,
        form_time_ms,
        error_kind: Some(kind.to_string()),
        retry_count,
        immediate_edit: false,
        follow_up_failure,
    }
}

fn clean(id: i64, on: Date) -> FrictionTelemetryEvent {
    FrictionTelemetryEvent {
        id,
        recorded_on: on,
        form_time_ms: 1000,
        error_kind: None,
        retry_count: 0,
        immediate_edit: false,
        follow_up_failure: false,
    }
}

fn evidence(current: usize, prior: usize) -> ObservedEvidence {
    ObservedEvidence {
        current_occurrences: current,
        prior_occurrences: prior,
        current_submit_count: 0,
        prior_submit_count: 0,
        current_form_time_total_ms: 0,
        prior_form_time_total_ms: 0,
        current_retries_total: 0,
        prior_retries_total: 0,
        current_follow_up_failures: 0,
        prior_follow_up_failures: 0,
    }
}

fn proposal(kind: &str, centi_minutes: u128) -> FrictionBacklogProposal {
    FrictionBacklogProposal {
        rank: 0,
        action_key: format!("reduce_friction:{kind}"),
        error_kind: kind.to_string(),
        observed_evidence: evidence(1, 0),
        estimated_centi_minutes_saved_per_week: centi_minutes,
        confidence: Confidence::Low,
        persistence_two_windows: false,
        auto_promoted: false,
    }
}

#[test]
fn window_aggregate_of_three_submissions() {
    let on = date(2025, 6, 1);
    let events = vec![
        event(1, on, FrictionTelemetryInput {
            form_time_ms: 1000,
            error_kind: None,
            retry_count: 0,
            immediate_edit: false,
            follow_up_failure: false,
        }),
        event(2, on, FrictionTelemetryInput {
            form_time_ms: 2000,
            error_kind: Some("validation".to_string()),
            retry_count: 1,
            immediate_edit: true,
            follow_up_failure: false,
        }),
        event(3, on, FrictionTelemetryInput {
            form_time_ms: 6000,
            error_kind: Some("validation ".to_string()),
            retry_count: 2,
            immediate_edit: true,
            follow_up_failure: true,
        }),
    ];
    let agg = aggregate_friction_window(&events, &date(1970, 1, 1), &date(2100, 1, 1));
    assert_eq!(agg.submit_count, 3);
    assert_eq!(agg.median_form_time_centi_ms, 200_000);
    assert_eq!(agg.form_time_total_ms, 9000);
    assert_eq!(agg.error_count, 2);
    assert_eq!(agg.retries_total, 3);
    assert_eq!(agg.immediate_edit_count, 2);
    assert_eq!(agg.follow_up_failure_count, 1);
    let kind = aggregate_error_kind(&events, "validation", &date(1970, 1, 1), &date(2100, 1, 1));
    assert_eq!(kind.error_kind, "validation");
    assert_eq!((kind.occurrences, kind.retries_total, kind.form_time_total_ms), (1, 1, 2000));
    assert_eq!((kind.immediate_edit_count, kind.follow_up_failure_count), (1, 0));
    let kind = aggregate_error_kind(&events, "validation ", &date(1970, 1, 1), &date(2100, 1, 1));
    assert_eq!((kind.occurrences, kind.follow_up_failure_count), (1, 1));
}

#[test]
fn window_aggregate_of_an_empty_range_is_zero() {
    let events = vec![clean(1, date(2025, 6, 1))];
    let agg = aggregate_friction_window(&events, &date(1970, 1, 1), &date(1970, 1, 2));
    assert_eq!(agg.submit_count, 0);
    assert_eq!(agg.median_form_time_centi_ms, 0);
    assert_eq!(agg.form_time_total_ms, 0);
    assert_eq!(agg.error_count, 0);
    assert_eq!(agg.retries_total, 0);
    assert_eq!(agg.immediate_edit_count, 0);
    assert_eq!(agg.follow_up_failure_count, 0);
    let kind = aggregate_error_kind(&events, "validation", &date(1970, 1, 1), &date(2100, 1, 2));
    assert_eq!(kind.occurrences, 0);
}

#[test]
fn proposals_are_ranked_by_estimated_benefit() {
    let (ranked, order) = rank_proposals(&vec![proposal("timeout", 1_200), proposal("validation", 3_000)]);
    assert_eq!(order, vec![1, 0]);
    assert_eq!(ranked.len(), 2);
    assert_eq!((ranked[0].error_kind.as_str(), ranked[0].rank), ("validation", 1));
    assert_eq!(ranked[0].estimated_centi_minutes_saved_per_week, 3_000);
    assert_eq!(ranked[0].action_key, "reduce_friction:validation");
    assert_eq!((ranked[1].error_kind.as_str(), ranked[1].rank), ("timeout", 2));
    assert_eq!(ranked[1].estimated_centi_minutes_saved_per_week, 1_200);
}

#[test]
fn equal_estimates_keep_their_order() {
    let input = vec![proposal("a", 5), proposal("b", 9), proposal("c", 5), proposal("d", 9), proposal("e", 0)];
    let (ranked, order) = rank_proposals(&input);
    let kinds: Vec<&str> = ranked.iter().map(|p| p.error_kind.as_str()).collect();
    assert_eq!(kinds, vec!["b", "d", "a", "c", "e"]);
    assert_eq!(order, vec![1, 3, 0, 2, 4]);
    let ranks: Vec<usize> = ranked.iter().map(|p| p.rank).collect();
    assert_eq!(ranks, vec![1, 2, 3, 4, 5]);
    let (ranked, order) = rank_proposals(&vec![]);
    assert!(ranked.is_empty() && order.is_empty());
}

#[test]
fn benefit_formula() {
    // 14 occurrences in 7 days are 14 events a week. The mean form time rose
    // from 60 s to 120 s (one extra minute), retries from 1 to 2 (0.75
    // minutes), the failure rate from 0 to 0.5 (0.75 minutes): 35 minutes.
    let ev = ObservedEvidence {
        current_occurrences: 14,
        prior_occurrences: 7,
        current_submit_count: 40,
        prior_submit_count: 40,
        current_form_time_total_ms: 14 * 120_000,
        prior_form_time_total_ms: 7 * 60_000,
        current_retries_total: 28,
        prior_retries_total: 7,
        current_follow_up_failures: 7,
        prior_follow_up_failures: 0,
    };
    assert_eq!(estimate_benefit(&ev, 7), 3_500);
    // twice the window, half the events per week
    assert_eq!(estimate_benefit(&ev, 14), 1_750);
    // nothing got worse: nothing to save
    let same = ObservedEvidence {
        current_form_time_total_ms: 14 * 60_000,
        current_retries_total: 14,
        current_follow_up_failures: 0,
        ..ev
    };
    assert_eq!(estimate_benefit(&same, 7), 0);
    // improvements do not offset what got worse
    let mixed = ObservedEvidence { current_form_time_total_ms: 14 * 30_000, ..ev };
    assert_eq!(estimate_benefit(&mixed, 7), 2_100);
    // no prior occurrences: the prior means are zero
    let fresh = ObservedEvidence {
        prior_occurrences: 0,
        prior_form_time_total_ms: 0,
        prior_retries_total: 0,
        prior_follow_up_failures: 0,
        ..ev
    };
    // 14 * (2 + 0.75 * 2 + 1.5 * 0.5) = 59.5 minutes
    assert_eq!(estimate_benefit(&fresh, 7), 5_950);
    // 3 * 7 / 11 events a week, one third of a minute each: 0.6363...
    let odd = ObservedEvidence {
        current_occurrences: 3,
        prior_occurrences: 0,
        current_form_time_total_ms: 60_000,
        current_retries_total: 0,
        current_follow_up_failures: 0,
        prior_form_time_total_ms: 0,
        prior_retries_total: 0,
        prior_follow_up_failures: 0,
        ..ev
    };
    assert_eq!(estimate_benefit(&odd, 11), 63);
}

#[test]
fn backlog_of_two_error_kinds() {
    let as_of = date(2025, 6, 28);
    let mut events: Vec<FrictionTelemetryEvent> = Vec::new();
    let mut id = 0;
    // prior window: 2025-06-15 to 2025-06-21
    for n in 0..12u32 {
        id += 1;
        events.push(failed(id, date(2025, 6, 15 + n % 7), "validation", 60_000, 1, false));
    }
    for n in 0..4u32 {
        id += 1;
        events.push(failed(id, date(2025, 6, 15 + n), "timeout", 60_000, 0, false));
    }
    // current window: 2025-06-22 to 2025-06-28
    for n in 0..4u32 {
        id += 1;
        events.push(failed(id, date(2025, 6, 22 + n), "timeout", 90_000, 0, false));
    }
    for n in 0..12u32 {
        id += 1;
        events.push(failed(id, date(2025, 6, 22 + n % 7), "validation", 120_000, 2, n % 2 == 0));
    }
    id += 1;
    events.push(failed(id, date(2025, 6, 28), "upload", 30_000, 0, false));
    for n in 0..13u32 {
        id += 1;
        events.push(clean(id, date(2025, 6, 22 + n % 7)));
    }
    id += 1;
    events.push(failed(id, date(2025, 6, 29), "later", 30_000, 0, false));
    let resp = friction_backlog(as_of, 7, &events).expect("valid request");
    assert_eq!(resp.as_of.ymd(), (2025, 6, 28));
    assert_eq!(resp.window_days, 7);
    assert!(resp.minimum_sample_met);
    assert_eq!(resp.current_window.from.ymd(), (2025, 6, 22));
    assert_eq!(resp.prior_window.to.ymd(), (2025, 6, 21));
    assert_eq!(resp.proposals.len(), 3);

    let first = &resp.proposals[0];
    assert_eq!((first.rank, first.error_kind.as_str()), (1, "validation"));
    assert_eq!(first.action_key, "reduce_friction:validation");
    assert_eq!(first.observed_evidence.current_occurrences, 12);
    assert_eq!(first.observed_evidence.prior_occurrences, 12);
    assert_eq!(first.observed_evidence.current_submit_count, 30);
    assert_eq!(first.observed_evidence.prior_submit_count, 16);
    assert_eq!(first.observed_evidence.current_form_time_total_ms, 12 * 120_000);
    assert_eq!(first.observed_evidence.prior_retries_total, 12);
    assert_eq!(first.observed_evidence.current_follow_up_failures, 6);
    // 12 events a week, each 1 + 0.75 + 0.75 minutes
    assert_eq!(first.estimated_centi_minutes_saved_per_week, 3_000);
    assert_eq!(first.confidence, Confidence::High);
    assert!(first.persistence_two_windows && first.auto_promoted);

    let second = &resp.proposals[1];
    assert_eq!((second.rank, second.error_kind.as_str()), (2, "timeout"));
    // 4 events a week, each half a minute
    assert_eq!(second.estimated_centi_minutes_saved_per_week, 200);
    assert_eq!(second.confidence, Confidence::Medium);
    assert!(second.persistence_two_windows && second.auto_promoted);

    let third = &resp.proposals[2];
    assert_eq!((third.rank, third.error_kind.as_str()), (3, "upload"));
    assert_eq!(third.observed_evidence.prior_occurrences, 0);
    // one event a week, half a minute of form time
    assert_eq!(third.estimated_centi_minutes_saved_per_week, 50);
    assert_eq!(third.confidence, Confidence::Low);
    assert!(!third.persistence_two_windows && !third.auto_promoted);
}

#[test]
fn backlog_without_the_minimum_sample_has_low_confidence() {
    let as_of = date(2025, 6, 28);
    let mut events: Vec<FrictionTelemetryEvent> = Vec::new();
    for n in 0..12u32 {
        events.push(failed(n as i64, date(2025, 6, 15 + n % 7), "validation", 60_000, 1, false));
        events.push(failed(100 + n as i64, date(2025, 6, 22 + n % 7), "validation", 120_000, 2, false));
    }
    let resp = friction_backlog(as_of, 7, &events).expect("valid request");
    assert!(!resp.minimum_sample_met);
    assert_eq!(resp.proposals.len(), 1);
    assert_eq!(resp.proposals[0].confidence, Confidence::Low);
    assert!(resp.proposals[0].persistence_two_windows);
    assert!(!resp.proposals[0].auto_promoted);
    let empty = friction_backlog(as_of, 7, &vec![]).expect("valid request");
    assert!(empty.proposals.is_empty());
    assert!(!empty.minimum_sample_met);
}

#[test]
fn backlog_window_must_lie_between_1_and_365_days() {
    for days in [0, 366, -3] {
        let err = friction_backlog(date(2025, 6, 28), days, &vec![]).expect_err("out of range");
        assert_eq!(err.to_string(), "window_days must be between 1 and 365");
    }
    let early = Date::from_days_from_ce(MIN_DAY + 3).expect("in range");
    let err = friction_backlog(early, 7, &vec![]).expect_err("before the calendar");
    assert_eq!(err.to_string(), "invalid date (underflow)");
}
