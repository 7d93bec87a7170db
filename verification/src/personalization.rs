//! The personalization report: windows, metrics and recommendations.

use crate::calendar::Date;
use crate::domain::{DomainError, DomainErrorView};
use crate::metrics::{
    day_type_timing, duration_baseline, is_day_type_timing, is_duration_baseline,
    is_schedule_variability, is_social_jetlag, schedule_variability, social_jetlag,
    DayTypeTimingMetric, DurationBaselineMetric, ScheduleVariabilityMetric, SocialJetlagMetric,
};
use crate::quality_factors::{is_quality_factors, quality_factors, QualityFactorMetric};
use crate::recommend::{
    day_type_checks, day_type_strong, duration_checks, duration_strong, is_action, jetlag_checks,
    jetlag_strong, quality_checks, quality_strong, recommend_day_type, recommend_duration,
    recommend_quality_factors, recommend_regularity, recommend_social_jetlag, variability_checks,
    variability_strong, ActionRecommendation, ActionStatus, DAY_TYPE_KEY, DAY_TYPE_RATIONALE,
    DURATION_KEY, DURATION_RATIONALE, JETLAG_KEY, JETLAG_RATIONALE, QUALITY_KEY,
    QUALITY_RATIONALE, REGULARITY_KEY, REGULARITY_RATIONALE,
};
use crate::sample::{build_day_samples, is_sample_of, DailySleepRow, DaySample};
use crate::stats::{lemma_filter_next, MAX_SAMPLES};
use crate::window::{
    days_of, is_coverage, window_complaint, window_coverage, window_pair, Window, WindowBounds,
};
use vstd::prelude::*;

verus! {

/// Window length where a request names none.
pub const DEFAULT_WINDOW_DAYS: i32 = 28;

/// The five metrics of a report.
#[derive(Debug)]
pub struct Metrics {
    pub duration_baseline: DurationBaselineMetric,
    pub day_type_timing: DayTypeTimingMetric,
    pub social_jetlag: SocialJetlagMetric,
    pub schedule_variability: ScheduleVariabilityMetric,
    pub quality_factors: QualityFactorMetric,
}

/// The personalization report.
#[derive(Debug)]
pub struct PersonalizationResponse {
    pub as_of: Date,
    pub window_days: i32,
    pub current_window: Window,
    pub prior_window: Window,
    pub metrics: Metrics,
    pub recommendations: Vec<ActionRecommendation>,
}

/// The window length in force: the requested one, or 28 days.
pub open spec fn window_days_in_force(requested: Option<i32>) -> int {
    match requested {
        Some(d) => d as int,
        None => DEFAULT_WINDOW_DAYS as int,
    }
}

/// The condition "woke within the range".
pub open spec fn woke_within(from: int, to: int) -> spec_fn(DailySleepRow) -> bool {
    |r: DailySleepRow| from <= r.wake_date@ <= to
}

/// The wake dates of some rows, in their order.
pub open spec fn wake_dates(rows: Seq<DailySleepRow>) -> Seq<Date> {
    rows.map_values(|r: DailySleepRow| r.wake_date)
}

/// Whether the samples are those of the rows, one for one.
pub open spec fn are_samples_of(samples: Seq<DaySample>, rows: Seq<DailySleepRow>) -> bool {
    &&& samples.len() == rows.len()
    &&& forall|i: int| 0 <= i < rows.len() ==> is_sample_of(#[trigger] samples[i], rows[i])
}

/// Whether the metrics are those of the two sets of samples.
pub open spec fn are_metrics_of(
    m: Metrics,
    current: Seq<DaySample>,
    prior: Seq<DaySample>,
    current_window: Window,
) -> bool {
    &&& is_duration_baseline(m.duration_baseline, current, prior)
    &&& is_day_type_timing(m.day_type_timing, current, prior)
    &&& is_social_jetlag(m.social_jetlag, current, prior)
    &&& is_schedule_variability(m.schedule_variability, current, prior, current_window)
    &&& is_quality_factors(m.quality_factors, current, prior)
}

/// Whether the recommendations are those of the metrics: five actions, in
/// the order of the metrics, each decided by the preconditions of its metric.
pub open spec fn are_recommendations_of(recs: Seq<ActionRecommendation>, m: Metrics) -> bool {
    &&& recs.len() == 5
    &&& is_action(
        recs[0],
        DURATION_KEY@,
        DURATION_RATIONALE@,
        duration_checks(m.duration_baseline),
        duration_strong(m.duration_baseline),
    )
    &&& is_action(
        recs[1],
        DAY_TYPE_KEY@,
        DAY_TYPE_RATIONALE@,
        day_type_checks(m.day_type_timing),
        day_type_strong(m.day_type_timing),
    )
    &&& is_action(
        recs[2],
        JETLAG_KEY@,
        JETLAG_RATIONALE@,
        jetlag_checks(m.social_jetlag),
        jetlag_strong(m.social_jetlag),
    )
    &&& is_action(
        recs[3],
        REGULARITY_KEY@,
        REGULARITY_RATIONALE@,
        variability_checks(m.schedule_variability),
        variability_strong(m.schedule_variability),
    )
    &&& is_action(
        recs[4],
        QUALITY_KEY@,
        QUALITY_RATIONALE@,
        quality_checks(m.quality_factors),
        quality_strong(m.quality_factors),
    )
}

/// Whether a report is the one for the rows, looking back `window_days` days
/// from `as_of`: its windows are the current and the prior window with the
/// coverage of the rows that woke in them, its metrics are computed from the
/// samples of those rows, and its recommendations follow from its metrics.
pub open spec fn is_report(
    resp: PersonalizationResponse,
    as_of: int,
    window_days: int,
    rows: Seq<DailySleepRow>,
) -> bool {
    let first = crate::window::current_from(as_of, window_days);
    let before_last = crate::window::prior_to(as_of, window_days);
    let before_first = crate::window::prior_from(as_of, window_days);
    let current_rows = rows.filter(woke_within(first, as_of));
    let prior_rows = rows.filter(woke_within(before_first, before_last));
    &&& resp.as_of@ == as_of
    &&& resp.window_days == window_days
    &&& is_coverage(resp.current_window, days_of(wake_dates(current_rows)), first, as_of)
    &&& is_coverage(resp.prior_window, days_of(wake_dates(prior_rows)), before_first, before_last)
    &&& exists|current: Seq<DaySample>, prior: Seq<DaySample>|
        are_samples_of(current, current_rows) && are_samples_of(prior, prior_rows)
            && #[trigger] are_metrics_of(resp.metrics, current, prior, resp.current_window)
    &&& are_recommendations_of(resp.recommendations@, resp.metrics)
}

/// The rows that woke within a range of dates, in their order.
pub fn rows_within(rows: &Vec<DailySleepRow>, bounds: &WindowBounds) -> (out: Vec<DailySleepRow>)
    ensures
        out@ == rows@.filter(woke_within(bounds.from@, bounds.to@)),
        out@.len() <= rows@.len(),
{
    let ghost pred = woke_within(bounds.from@, bounds.to@);
    let mut out: Vec<DailySleepRow> = Vec::new();
    let mut i: usize = 0;
    assert(rows@.take(0).filter(pred) =~= Seq::<DailySleepRow>::empty());
    while i < rows.len()
        invariant
            i <= rows.len(),
            pred == woke_within(bounds.from@, bounds.to@),
            out@ == rows@.take(i as int).filter(pred),
            out@.len() <= i,
        decreases rows.len() - i,
    {
        let r = rows[i];
        proof {
            lemma_filter_next(rows@, pred, i as int);
        }
        if !r.wake_date.is_before(&bounds.from) && !bounds.to.is_before(&r.wake_date) {
            assert(pred(rows@[i as int]));
            out.push(r);
        } else {
            assert(!pred(rows@[i as int]));
        }
        i += 1;
    }
    assert(rows@.take(rows@.len() as int) =~= rows@);
    out
}

/// The wake dates of the rows, in their order.
pub fn dates_of(rows: &Vec<DailySleepRow>) -> (out: Vec<Date>)
    ensures
        out@ == wake_dates(rows@),
{
    let mut out: Vec<Date> = Vec::new();
    let mut i: usize = 0;
    while i < rows.len()
        invariant
            i <= rows.len(),
            out@.len() == i,
            forall|k: int| 0 <= k < i ==> out@[k] == rows@[k].wake_date,
        decreases rows.len() - i,
    {
        out.push(rows[i].wake_date);
        i += 1;
    }
    assert(out@ =~= wake_dates(rows@));
    out
}

/// Evaluates the five metrics on the samples of the two windows. Each window
/// may hold at most [`MAX_SAMPLES`] samples.
pub fn evaluate_metrics(
    current: &Vec<DaySample>,
    prior: &Vec<DaySample>,
    current_window: &Window,
) -> (m: Metrics)
    requires
        current@.len() <= MAX_SAMPLES,
        prior@.len() <= MAX_SAMPLES,
    ensures
        are_metrics_of(m, current@, prior@, *current_window),
{
    Metrics {
        duration_baseline: duration_baseline(current, prior),
        day_type_timing: day_type_timing(current, prior),
        social_jetlag: social_jetlag(current, prior),
        schedule_variability: schedule_variability(current, prior, current_window),
        quality_factors: quality_factors(current, prior),
    }
}

/// The five recommendations, in the order of the metrics.
pub fn build_recommendations(m: &Metrics) -> (recs: Vec<ActionRecommendation>)
    ensures
        are_recommendations_of(recs@, *m),
{
    let mut recs: Vec<ActionRecommendation> = Vec::new();
    recs.push(recommend_duration(&m.duration_baseline));
    recs.push(recommend_day_type(&m.day_type_timing));
    recs.push(recommend_social_jetlag(&m.social_jetlag));
    recs.push(recommend_regularity(&m.schedule_variability));
    recs.push(recommend_quality_factors(&m.quality_factors));
    recs
}

/// Builds the personalization report.
///
/// `window_days` is the requested window length, 28 where none is
/// requested; `rows` are the daily rows of the store, of which those that
/// woke in the current or in the prior window are used. Fails with
/// `InvalidInput` where the window length is not between 1 and 365, or where
/// the prior window would start before the calendar. At most
/// [`MAX_SAMPLES`] rows may be given.
pub fn personalization(as_of: Date, window_days: Option<i32>, rows: &Vec<DailySleepRow>) -> (r:
    Result<PersonalizationResponse, DomainError>)
    requires
        rows@.len() <= MAX_SAMPLES,
    ensures
        match window_complaint(as_of@, window_days_in_force(window_days)) {
            Some(msg) => r.is_err() && r.unwrap_err()@ == DomainErrorView::InvalidInput(msg),
            None => r.is_ok() && is_report(
                r.unwrap(),
                as_of@,
                window_days_in_force(window_days),
                rows@,
            ),
        },
{
    let days = match window_days {
        Some(d) => d,
        None => DEFAULT_WINDOW_DAYS,
    };
    let pair = match window_pair(as_of, days) {
        Ok(p) => p,
        Err(e) => {
            return Err(e);
        },
    };
    let current_rows = rows_within(rows, &pair.current);
    let prior_rows = rows_within(rows, &pair.prior);
    let current_window = window_coverage(&pair.current, &dates_of(&current_rows));
    let prior_window = window_coverage(&pair.prior, &dates_of(&prior_rows));
    let current = build_day_samples(&current_rows);
    let prior = build_day_samples(&prior_rows);
    let metrics = evaluate_metrics(&current, &prior, &current_window);
    let recommendations = build_recommendations(&metrics);
    let resp = PersonalizationResponse {
        as_of,
        window_days: days,
        current_window,
        prior_window,
        metrics,
        recommendations,
    };
    proof {
        assert(are_samples_of(current@, current_rows@));
        assert(are_samples_of(prior@, prior_rows@));
        assert(are_metrics_of(resp.metrics, current@, prior@, resp.current_window));
    }
    Ok(resp)
}

/// With fewer than 60 samples in the prior window, the duration baseline is
/// not eligible, and its action is suppressed with low confidence, giving as
/// its first reason that at least 60 baseline sessions are needed.
pub proof fn lemma_short_baseline_suppressed(
    m: DurationBaselineMetric,
    r: ActionRecommendation,
    current: Seq<DaySample>,
    prior: Seq<DaySample>,
)
    requires
        prior.len() < 60,
        is_duration_baseline(m, current, prior),
        is_action(r, DURATION_KEY@, DURATION_RATIONALE@, duration_checks(m), duration_strong(m)),
    ensures
        !m.eligible,
        r.status == ActionStatus::Suppressed,
        r.confidence == crate::recommend::Confidence::Low,
        r.suppression_reasons@.len() > 0,
        r.suppression_reasons@[0]@ == "needs at least 60 baseline sessions in prior window"@,
{
    prior.lemma_filter_len(crate::metrics::of_kind(crate::metrics::DayKind::Any));
    let checks = duration_checks(m);
    crate::recommend::lemma_first_failed_text(checks);
    assert(crate::recommend::texts(r.suppression_reasons@).len() == r.suppression_reasons@.len());
    assert(crate::recommend::texts(r.suppression_reasons@)[0] == r.suppression_reasons@[0]@);
}

} // verus!
