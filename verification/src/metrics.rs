//! The metrics of the personalization report.
//!
//! Each metric compares the samples of the current window with those of the
//! prior window of equal length and says whether enough data is there
//! (`eligible`) and what the data shows. Medians and percentiles are in
//! hundredths of a minute; thresholds are fixed.

use crate::sample::DaySample;
use crate::stats::{
    circular_diff, circular_diff_spec, circular_signed_delta, circular_signed_delta_spec,
    lemma_filter_next, median, median_spec, percentile_linear, percentile_linear_spec, std_dev,
    std_dev_spec, CENTI_PER_DAY, MAX_SAMPLES,
};
use crate::window::{span_days, Window};
use vstd::prelude::*;

verus! {

/// Prior-window sessions needed for a duration baseline.
pub const MIN_BASELINE_SESSIONS: usize = 60;

/// Share of current sessions outside the personal range, in percent, from
/// which the duration baseline triggers.
pub const OUT_OF_RANGE_TRIGGER_PCT: u32 = 5;

/// Current weekday samples needed for day-type timing.
pub const MIN_WEEKDAY_SAMPLES: usize = 8;

/// Weekend samples needed for day-type timing and for social jetlag.
pub const MIN_WEEKEND_SAMPLES: usize = 4;

/// Largest shift of a midpoint median between the windows that still counts
/// as stable: 30 minutes, in hundredths.
pub const STABLE_SHIFT_CENTI: i64 = 3_000;

/// Shift of a recent midpoint median from the prior baseline above which
/// recent data diverges: 90 minutes, in hundredths.
pub const DIVERGENCE_CENTI: i64 = 9_000;

/// Number of latest samples that count as recent.
pub const RECENT_SAMPLES: usize = 14;

/// Smallest weekend-to-weekday midpoint difference that counts as social
/// jetlag: 30 minutes, in hundredths.
pub const JETLAG_CENTI: i64 = 3_000;

/// Twice the variability from which a schedule counts as irregular: the sum
/// of the two standard deviations that average to 60 minutes, in hundredths.
pub const VARIABILITY_SUM_CENTI: i64 = 12_000;

/// Share of missing days, in percent, above which the data has a high gap.
pub const HIGH_GAP_PCT: u32 = 30;

/// Which samples a figure is taken from.
#[derive(Clone, Copy, Debug, PartialEq, Eq, Structural)]
pub enum DayKind {
    Any,
    Weekday,
    Weekend,
}

/// Which figure of a sample is taken.
#[derive(Clone, Copy, Debug, PartialEq, Eq, Structural)]
pub enum Figure {
    Duration,
    Midpoint,
    BedRelative,
    WakeRelative,
}

/// The condition "is a sample of this kind of day".
pub open spec fn of_kind(kind: DayKind) -> spec_fn(DaySample) -> bool {
    |s: DaySample|
        match kind {
            DayKind::Any => true,
            DayKind::Weekday => !s.weekend,
            DayKind::Weekend => s.weekend,
        }
}

/// The figure of a sample.
pub open spec fn figure_of(figure: Figure) -> spec_fn(DaySample) -> i32 {
    |s: DaySample|
        match figure {
            Figure::Duration => s.duration_min,
            Figure::Midpoint => s.midpoint_clock_min,
            Figure::BedRelative => s.bed_relative_min,
            Figure::WakeRelative => s.wake_relative_min,
        }
}

/// The figures of the samples of one kind of day, in the order of the samples.
pub open spec fn figures(samples: Seq<DaySample>, kind: DayKind, figure: Figure) -> Seq<i32> {
    samples.filter(of_kind(kind)).map_values(figure_of(figure))
}

/// An executable optional number as a mathematical one.
pub open spec fn as_int(v: Option<i64>) -> Option<int> {
    match v {
        Some(x) => Some(x as int),
        None => None,
    }
}

/// Distance round the clock between two medians in hundredths of a minute,
/// where both exist.
pub open spec fn shift_spec(a: Option<int>, b: Option<int>) -> Option<int> {
    match (a, b) {
        (Some(x), Some(y)) => Some(circular_diff_spec(x, y, CENTI_PER_DAY as int)),
        _ => None,
    }
}

/// Signed way round the clock from the second median to the first, in
/// hundredths of a minute, where both exist.
pub open spec fn signed_shift_spec(later: Option<int>, earlier: Option<int>) -> Option<int> {
    match (later, earlier) {
        (Some(x), Some(y)) => Some(circular_signed_delta_spec(x, y, CENTI_PER_DAY as int)),
        _ => None,
    }
}

/// Whether a value exists and lies at or below a limit.
pub open spec fn at_most(v: Option<int>, limit: int) -> bool {
    match v {
        Some(x) => x <= limit,
        None => false,
    }
}

/// Whether a value exists and lies above a limit.
pub open spec fn above(v: Option<int>, limit: int) -> bool {
    match v {
        Some(x) => x > limit,
        None => false,
    }
}

/// Whether a value exists and is at least `limit` away from zero.
pub open spec fn magnitude_at_least(v: Option<int>, limit: int) -> bool {
    match v {
        Some(x) => x >= limit || x <= -limit,
        None => false,
    }
}

/// Collects the figures of the samples of one kind of day.
pub fn collect_figures(samples: &Vec<DaySample>, kind: DayKind, figure: Figure) -> (out: Vec<i32>)
    ensures
        out@ == figures(samples@, kind, figure),
        out@.len() <= samples@.len(),
{
    let mut out: Vec<i32> = Vec::new();
    let mut i: usize = 0;
    assert(samples@.take(0).filter(of_kind(kind)) =~= Seq::<DaySample>::empty());
    assert(Seq::<DaySample>::empty().map_values(figure_of(figure)) =~= Seq::<i32>::empty());
    while i < samples.len()
        invariant
            i <= samples.len(),
            out@ == samples@.take(i as int).filter(of_kind(kind)).map_values(figure_of(figure)),
            out@.len() <= i,
        decreases samples.len() - i,
    {
        let s = &samples[i];
        let take = match kind {
            DayKind::Any => true,
            DayKind::Weekday => !s.weekend,
            DayKind::Weekend => s.weekend,
        };
        proof {
            lemma_filter_next(samples@, of_kind(kind), i as int);
        }
        if take {
            let v = match figure {
                Figure::Duration => s.duration_min,
                Figure::Midpoint => s.midpoint_clock_min,
                Figure::BedRelative => s.bed_relative_min,
                Figure::WakeRelative => s.wake_relative_min,
            };
            proof {
                let chosen = samples@.take(i as int).filter(of_kind(kind));
                assert(of_kind(kind)(samples@[i as int]));
                assert(chosen.push(*s).map_values(figure_of(figure)) =~= chosen.map_values(
                    figure_of(figure),
                ).push(v));
            }
            out.push(v);
        } else {
            assert(!of_kind(kind)(samples@[i as int]));
        }
        i += 1;
    }
    assert(samples@.take(samples@.len() as int) =~= samples@);
    out
}

/// Distance round the clock between two medians, where both exist.
pub fn clock_shift(a: Option<i64>, b: Option<i64>) -> (r: Option<i64>)
    ensures
        as_int(r) == shift_spec(as_int(a), as_int(b)),
{
    match (a, b) {
        (Some(x), Some(y)) => Some(circular_diff(x, y, CENTI_PER_DAY)),
        _ => None,
    }
}

/// Signed way round the clock from `earlier` to `later`, where both exist.
pub fn signed_clock_shift(later: Option<i64>, earlier: Option<i64>) -> (r: Option<i64>)
    ensures
        as_int(r) == signed_shift_spec(as_int(later), as_int(earlier)),
{
    match (later, earlier) {
        (Some(x), Some(y)) => Some(circular_signed_delta(x, y, CENTI_PER_DAY)),
        _ => None,
    }
}

// ---------------------------------------------------------------------------
// Duration baseline
// ---------------------------------------------------------------------------
/// How current durations compare with the personal range of the prior window.
///
/// The personal range runs from the 10th to the 90th percentile of the prior
/// durations. `out_of_range_pct_centi` is the share of current durations
/// outside it, in hundredths of a percent, rounded down.
#[derive(Clone, Copy, Debug)]
pub struct DurationBaselineMetric {
    pub eligible: bool,
    pub prior_count: usize,
    pub current_count: usize,
    pub p10_centi: Option<i64>,
    pub p50_centi: Option<i64>,
    pub p90_centi: Option<i64>,
    pub iqr_centi: Option<i64>,
    pub out_of_range_count: usize,
    pub out_of_range_pct_centi: u32,
    pub triggered: bool,
}

/// The condition "lies outside the range", for a duration in minutes and a
/// range in hundredths of a minute.
pub open spec fn outside_range(low: int, high: int) -> spec_fn(i32) -> bool {
    |d: i32| 100 * d < low || 100 * d > high
}

/// Spread between the 25th and the 75th percentile, in hundredths.
pub open spec fn iqr_spec(values: Seq<i32>) -> Option<int> {
    if values.len() == 0 {
        None
    } else {
        Some(
            percentile_linear_spec(values, 75).unwrap() - percentile_linear_spec(
                values,
                25,
            ).unwrap(),
        )
    }
}

/// Number of current durations outside the personal range of the prior
/// durations; none where there is no prior duration.
pub open spec fn out_of_range_spec(current: Seq<i32>, prior: Seq<i32>) -> nat {
    if prior.len() == 0 {
        0
    } else {
        current.filter(
            outside_range(
                percentile_linear_spec(prior, 10).unwrap(),
                percentile_linear_spec(prior, 90).unwrap(),
            ),
        ).len()
    }
}

/// Whether a metric is the duration baseline of the two windows.
pub open spec fn is_duration_baseline(
    m: DurationBaselineMetric,
    current: Seq<DaySample>,
    prior: Seq<DaySample>,
) -> bool {
    let cur = figures(current, DayKind::Any, Figure::Duration);
    let pri = figures(prior, DayKind::Any, Figure::Duration);
    &&& m.prior_count == pri.len()
    &&& m.current_count == cur.len()
    &&& m.eligible == (pri.len() >= MIN_BASELINE_SESSIONS)
    &&& as_int(m.p10_centi) == percentile_linear_spec(pri, 10)
    &&& as_int(m.p50_centi) == percentile_linear_spec(pri, 50)
    &&& as_int(m.p90_centi) == percentile_linear_spec(pri, 90)
    &&& as_int(m.iqr_centi) == iqr_spec(pri)
    &&& m.out_of_range_count == out_of_range_spec(cur, pri)
    &&& m.out_of_range_pct_centi == if cur.len() == 0 {
        0
    } else {
        (m.out_of_range_count * 10_000) / (cur.len() as int)
    }
    &&& m.triggered == (m.eligible && cur.len() > 0 && m.out_of_range_count * 100
        >= OUT_OF_RANGE_TRIGGER_PCT * cur.len())
}

fn count_outside(values: &Vec<i32>, low: i64, high: i64) -> (count: usize)
    ensures
        count == values@.filter(outside_range(low as int, high as int)).len(),
        count <= values@.len(),
{
    let ghost pred = outside_range(low as int, high as int);
    let mut count: usize = 0;
    let mut i: usize = 0;
    assert(values@.take(0).filter(pred) =~= Seq::<i32>::empty());
    while i < values.len()
        invariant
            i <= values.len(),
            pred == outside_range(low as int, high as int),
            count == values@.take(i as int).filter(pred).len(),
            count <= i,
        decreases values.len() - i,
    {
        let d: i64 = values[i] as i64;
        proof {
            lemma_filter_next(values@, pred, i as int);
        }
        if 100 * d < low || 100 * d > high {
            assert(pred(values@[i as int]));
            count += 1;
        } else {
            assert(!pred(values@[i as int]));
        }
        i += 1;
    }
    assert(values@.take(values@.len() as int) =~= values@);
    count
}

/// Evaluates the duration baseline.
///
/// Eligible with at least 60 prior sessions. The personal range is the 10th
/// to 90th percentile of the prior durations; the metric triggers where it
/// is eligible and at least 5 percent of the current durations lie outside
/// that range.
pub fn duration_baseline(current: &Vec<DaySample>, prior: &Vec<DaySample>) -> (m:
    DurationBaselineMetric)
    ensures
        is_duration_baseline(m, current@, prior@),
{
    let cur = collect_figures(current, DayKind::Any, Figure::Duration);
    let pri = collect_figures(prior, DayKind::Any, Figure::Duration);
    let p10 = percentile_linear(&pri, 10);
    let p25 = percentile_linear(&pri, 25);
    let p50 = percentile_linear(&pri, 50);
    let p75 = percentile_linear(&pri, 75);
    let p90 = percentile_linear(&pri, 90);
    let iqr = match (p25, p75) {
        (Some(low), Some(high)) => {
            proof {
                lemma_percentile_range(pri@, 25);
                lemma_percentile_range(pri@, 75);
            }
            Some(high - low)
        },
        _ => None,
    };
    let outside = match (p10, p90) {
        (Some(low), Some(high)) => count_outside(&cur, low, high),
        _ => 0,
    };
    let eligible = pri.len() >= MIN_BASELINE_SESSIONS;
    let n = cur.len();
    let pct: u32 = if n == 0 {
        0
    } else {
        assert((outside * 10_000) / (n as int) <= 10_000) by (nonlinear_arith)
            requires
                0 <= outside <= n,
                n > 0,
        ;
        ((outside as u128 * 10_000) / (n as u128)) as u32
    };
    let triggered = eligible && n > 0 && (outside as u128) * 100 >= (OUT_OF_RANGE_TRIGGER_PCT
        as u128) * (n as u128);
    DurationBaselineMetric {
        eligible,
        prior_count: pri.len(),
        current_count: n,
        p10_centi: p10,
        p50_centi: p50,
        p90_centi: p90,
        iqr_centi: iqr,
        out_of_range_count: outside,
        out_of_range_pct_centi: pct,
        triggered,
    }
}

/// A percentile in hundredths lies within a hundred times the range of a value.
pub proof fn lemma_percentile_range(values: Seq<i32>, pct: int)
    requires
        values.len() > 0,
        0 <= pct,
    ensures
        -214_748_364_800 <= percentile_linear_spec(values, pct).unwrap() <= 214_748_364_700,
{
    crate::stats::lemma_sorted_values(values);
    let sorted = crate::stats::sorted_values(values);
    let last = values.len() - 1;
    let p = crate::stats::clamp_percent(pct);
    assert(0 <= p * last <= 100 * last) by (nonlinear_arith)
        requires
            0 <= p <= 100,
            0 <= last,
    ;
    let t = p * last;
    let lo = t / 100;
    let part = t % 100;
    if part != 0 {
        let a = sorted[lo] as int;
        let b = sorted[lo + 1] as int;
        assert(-214_748_364_800 <= (100 - part) * a + part * b <= 214_748_364_700)
            by (nonlinear_arith)
            requires
                0 < part < 100,
                -2_147_483_648 <= a <= 2_147_483_647,
                -2_147_483_648 <= b <= 2_147_483_647,
        ;
    }
}

// ---------------------------------------------------------------------------
// Day-type timing baseline
// ---------------------------------------------------------------------------
/// How the sleep midpoint of weekdays and of weekends compares between the
/// windows, and whether the latest samples have moved away from the prior
/// baseline.
#[derive(Clone, Copy, Debug)]
pub struct DayTypeTimingMetric {
    pub eligible: bool,
    pub weekday_count: usize,
    pub weekend_count: usize,
    pub weekday_median_centi: Option<i64>,
    pub weekend_median_centi: Option<i64>,
    pub prior_weekday_median_centi: Option<i64>,
    pub prior_weekend_median_centi: Option<i64>,
    pub weekday_shift_centi: Option<i64>,
    pub weekend_shift_centi: Option<i64>,
    pub stable: bool,
    pub recent_diverges: bool,
}

/// Median sleep midpoint of the samples of one kind of day, in hundredths of
/// a minute.
pub open spec fn midpoint_median(samples: Seq<DaySample>, kind: DayKind) -> Option<int> {
    median_spec(figures(samples, kind, Figure::Midpoint))
}

/// The condition "woke on a later day than `day`".
pub open spec fn later_than(day: int) -> spec_fn(DaySample) -> bool {
    |s: DaySample| s.wake_date@ > day
}

/// The condition "is among the latest samples": fewer than 14 of the samples
/// have a later wake date. The order of the samples plays no part.
pub open spec fn is_recent(samples: Seq<DaySample>) -> spec_fn(DaySample) -> bool {
    |s: DaySample| samples.filter(later_than(s.wake_date@)).len() < RECENT_SAMPLES
}

/// The latest samples, in their order.
pub open spec fn recent_of(samples: Seq<DaySample>) -> Seq<DaySample> {
    samples.filter(is_recent(samples))
}

/// Whether recent samples diverge from the prior baseline: the midpoint
/// median of the recent weekdays, or of the recent weekends, lies more than
/// 90 minutes from that of the prior window.
pub open spec fn recent_diverges_spec(current: Seq<DaySample>, prior: Seq<DaySample>) -> bool {
    let recent = recent_of(current);
    above(
        shift_spec(
            midpoint_median(recent, DayKind::Weekday),
            midpoint_median(prior, DayKind::Weekday),
        ),
        DIVERGENCE_CENTI as int,
    ) || above(
        shift_spec(
            midpoint_median(recent, DayKind::Weekend),
            midpoint_median(prior, DayKind::Weekend),
        ),
        DIVERGENCE_CENTI as int,
    )
}

/// Whether a metric is the day-type timing of the two windows.
pub open spec fn is_day_type_timing(
    m: DayTypeTimingMetric,
    current: Seq<DaySample>,
    prior: Seq<DaySample>,
) -> bool {
    &&& m.weekday_count == figures(current, DayKind::Weekday, Figure::Midpoint).len()
    &&& m.weekend_count == figures(current, DayKind::Weekend, Figure::Midpoint).len()
    &&& as_int(m.weekday_median_centi) == midpoint_median(current, DayKind::Weekday)
    &&& as_int(m.weekend_median_centi) == midpoint_median(current, DayKind::Weekend)
    &&& as_int(m.prior_weekday_median_centi) == midpoint_median(prior, DayKind::Weekday)
    &&& as_int(m.prior_weekend_median_centi) == midpoint_median(prior, DayKind::Weekend)
    &&& as_int(m.weekday_shift_centi) == shift_spec(
        midpoint_median(current, DayKind::Weekday),
        midpoint_median(prior, DayKind::Weekday),
    )
    &&& as_int(m.weekend_shift_centi) == shift_spec(
        midpoint_median(current, DayKind::Weekend),
        midpoint_median(prior, DayKind::Weekend),
    )
    &&& m.stable == (at_most(as_int(m.weekday_shift_centi), STABLE_SHIFT_CENTI as int) && at_most(
        as_int(m.weekend_shift_centi),
        STABLE_SHIFT_CENTI as int,
    ))
    &&& m.eligible == (m.weekday_count >= MIN_WEEKDAY_SAMPLES && m.weekend_count
        >= MIN_WEEKEND_SAMPLES && m.stable)
    &&& m.recent_diverges == recent_diverges_spec(current, prior)
}

fn count_later(samples: &Vec<DaySample>, day: i32) -> (count: usize)
    ensures
        count == samples@.filter(later_than(day as int)).len(),
{
    let ghost pred = later_than(day as int);
    let mut count: usize = 0;
    let mut i: usize = 0;
    assert(samples@.take(0).filter(pred) =~= Seq::<DaySample>::empty());
    while i < samples.len()
        invariant
            i <= samples.len(),
            pred == later_than(day as int),
            count == samples@.take(i as int).filter(pred).len(),
            count <= i,
        decreases samples.len() - i,
    {
        proof {
            lemma_filter_next(samples@, pred, i as int);
        }
        if samples[i].wake_date.days_from_ce() > day {
            assert(pred(samples@[i as int]));
            count += 1;
        } else {
            assert(!pred(samples@[i as int]));
        }
        i += 1;
    }
    assert(samples@.take(samples@.len() as int) =~= samples@);
    count
}

/// The latest samples: those with fewer than 14 samples of a later wake
/// date, in the order in which they were given.
pub fn recent_samples(samples: &Vec<DaySample>) -> (out: Vec<DaySample>)
    ensures
        out@ == recent_of(samples@),
{
    let ghost pred = is_recent(samples@);
    let mut out: Vec<DaySample> = Vec::new();
    let mut i: usize = 0;
    assert(samples@.take(0).filter(pred) =~= Seq::<DaySample>::empty());
    while i < samples.len()
        invariant
            i <= samples.len(),
            pred == is_recent(samples@),
            out@ == samples@.take(i as int).filter(pred),
        decreases samples.len() - i,
    {
        let s = samples[i];
        proof {
            lemma_filter_next(samples@, pred, i as int);
        }
        if count_later(samples, s.wake_date.days_from_ce()) < RECENT_SAMPLES {
            assert(pred(samples@[i as int]));
            out.push(s);
        } else {
            assert(!pred(samples@[i as int]));
        }
        i += 1;
    }
    assert(samples@.take(samples@.len() as int) =~= samples@);
    out
}

fn midpoint_median_of(samples: &Vec<DaySample>, kind: DayKind) -> (r: (Option<i64>, usize))
    ensures
        as_int(r.0) == midpoint_median(samples@, kind),
        r.1 == figures(samples@, kind, Figure::Midpoint).len(),
{
    let values = collect_figures(samples, kind, Figure::Midpoint);
    (median(&values), values.len())
}

fn exceeds(v: Option<i64>, limit: i64) -> (r: bool)
    ensures
        r == above(as_int(v), limit as int),
{
    match v {
        Some(x) => x > limit,
        None => false,
    }
}

fn within(v: Option<i64>, limit: i64) -> (r: bool)
    ensures
        r == at_most(as_int(v), limit as int),
{
    match v {
        Some(x) => x <= limit,
        None => false,
    }
}

/// Evaluates the day-type timing baseline.
///
/// The midpoint medians are stable where, for weekdays and for weekends, the
/// median of the current window lies within 30 minutes of that of the prior
/// window. Eligible with at least 8 current weekday samples, at least 4
/// current weekend samples, and stable medians. Recent data diverges where
/// the median of the latest 14 samples of either kind lies more than 90
/// minutes from the prior median of that kind.
pub fn day_type_timing(current: &Vec<DaySample>, prior: &Vec<DaySample>) -> (m: DayTypeTimingMetric)
    ensures
        is_day_type_timing(m, current@, prior@),
{
    let (weekday_median, weekday_count) = midpoint_median_of(current, DayKind::Weekday);
    let (weekend_median, weekend_count) = midpoint_median_of(current, DayKind::Weekend);
    let (prior_weekday, _) = midpoint_median_of(prior, DayKind::Weekday);
    let (prior_weekend, _) = midpoint_median_of(prior, DayKind::Weekend);
    let weekday_shift = clock_shift(weekday_median, prior_weekday);
    let weekend_shift = clock_shift(weekend_median, prior_weekend);
    let stable = within(weekday_shift, STABLE_SHIFT_CENTI) && within(
        weekend_shift,
        STABLE_SHIFT_CENTI,
    );
    let recent = recent_samples(current);
    let (recent_weekday, _) = midpoint_median_of(&recent, DayKind::Weekday);
    let (recent_weekend, _) = midpoint_median_of(&recent, DayKind::Weekend);
    let recent_diverges = exceeds(clock_shift(recent_weekday, prior_weekday), DIVERGENCE_CENTI)
        || exceeds(clock_shift(recent_weekend, prior_weekend), DIVERGENCE_CENTI);
    DayTypeTimingMetric {
        eligible: weekday_count >= MIN_WEEKDAY_SAMPLES && weekend_count >= MIN_WEEKEND_SAMPLES
            && stable,
        weekday_count,
        weekend_count,
        weekday_median_centi: weekday_median,
        weekend_median_centi: weekend_median,
        prior_weekday_median_centi: prior_weekday,
        prior_weekend_median_centi: prior_weekend,
        weekday_shift_centi: weekday_shift,
        weekend_shift_centi: weekend_shift,
        stable,
        recent_diverges,
    }
}

// ---------------------------------------------------------------------------
// Social jetlag
// ---------------------------------------------------------------------------
/// How far the sleep midpoint of weekends lies from that of weekdays, in each
/// window. A positive delta means later sleep on weekends.
#[derive(Clone, Copy, Debug)]
pub struct SocialJetlagMetric {
    pub eligible: bool,
    pub current_weekend_count: usize,
    pub prior_weekend_count: usize,
    pub current_delta_centi: Option<i64>,
    pub prior_delta_centi: Option<i64>,
    pub sustained: bool,
}

/// Signed way round the clock from the weekday midpoint median to the weekend
/// midpoint median, in hundredths of a minute, where both exist.
pub open spec fn jetlag_delta(samples: Seq<DaySample>) -> Option<int> {
    signed_shift_spec(
        midpoint_median(samples, DayKind::Weekend),
        midpoint_median(samples, DayKind::Weekday),
    )
}

/// Whether a metric is the social jetlag of the two windows.
pub open spec fn is_social_jetlag(
    m: SocialJetlagMetric,
    current: Seq<DaySample>,
    prior: Seq<DaySample>,
) -> bool {
    &&& m.current_weekend_count == figures(current, DayKind::Weekend, Figure::Midpoint).len()
    &&& m.prior_weekend_count == figures(prior, DayKind::Weekend, Figure::Midpoint).len()
    &&& as_int(m.current_delta_centi) == jetlag_delta(current)
    &&& as_int(m.prior_delta_centi) == jetlag_delta(prior)
    &&& m.eligible == (m.current_weekend_count >= MIN_WEEKEND_SAMPLES && m.prior_weekend_count
        >= MIN_WEEKEND_SAMPLES)
    &&& m.sustained == (m.eligible && magnitude_at_least(
        jetlag_delta(current),
        JETLAG_CENTI as int,
    ) && magnitude_at_least(jetlag_delta(prior), JETLAG_CENTI as int))
}

fn far_from_zero(v: Option<i64>, limit: i64) -> (r: bool)
    requires
        limit >= 0,
    ensures
        r == magnitude_at_least(as_int(v), limit as int),
{
    match v {
        Some(x) => x >= limit || x <= -limit,
        None => false,
    }
}

/// Evaluates social jetlag.
///
/// Eligible with at least 4 weekend samples in each window. The delta of a
/// window is the signed shortest way round the clock from its weekday
/// midpoint median to its weekend midpoint median. Sustained where the
/// metric is eligible and the delta is at least 30 minutes, in either
/// direction, in both windows.
pub fn social_jetlag(current: &Vec<DaySample>, prior: &Vec<DaySample>) -> (m: SocialJetlagMetric)
    ensures
        is_social_jetlag(m, current@, prior@),
{
    let (current_weekday, _) = midpoint_median_of(current, DayKind::Weekday);
    let (current_weekend, current_weekend_count) = midpoint_median_of(current, DayKind::Weekend);
    let (prior_weekday, _) = midpoint_median_of(prior, DayKind::Weekday);
    let (prior_weekend, prior_weekend_count) = midpoint_median_of(prior, DayKind::Weekend);
    let current_delta = signed_clock_shift(current_weekend, current_weekday);
    let prior_delta = signed_clock_shift(prior_weekend, prior_weekday);
    let eligible = current_weekend_count >= MIN_WEEKEND_SAMPLES && prior_weekend_count
        >= MIN_WEEKEND_SAMPLES;
    let sustained = eligible && far_from_zero(current_delta, JETLAG_CENTI) && far_from_zero(
        prior_delta,
        JETLAG_CENTI,
    );
    SocialJetlagMetric {
        eligible,
        current_weekend_count,
        prior_weekend_count,
        current_delta_centi: current_delta,
        prior_delta_centi: prior_delta,
        sustained,
    }
}

// ---------------------------------------------------------------------------
// Schedule variability
// ---------------------------------------------------------------------------
/// How much bed and wake times vary within each window. The variability of a
/// window is the mean of the standard deviations of its bed and wake times,
/// in hundredths of a minute, rounded down.
#[derive(Clone, Copy, Debug)]
pub struct ScheduleVariabilityMetric {
    pub eligible: bool,
    pub current_variability_centi: Option<i64>,
    pub prior_variability_centi: Option<i64>,
    pub sustained: bool,
    pub high_data_gap: bool,
}

/// Sum of the standard deviations of the bed and wake times of a window, in
/// hundredths of a minute; nothing for fewer than two samples.
pub open spec fn variability_sum(samples: Seq<DaySample>) -> Option<int> {
    match (
        std_dev_spec(figures(samples, DayKind::Any, Figure::BedRelative)),
        std_dev_spec(figures(samples, DayKind::Any, Figure::WakeRelative)),
    ) {
        (Some(bed), Some(wake)) => Some(bed + wake),
        _ => None,
    }
}

/// Variability of a window: half the sum of the two standard deviations.
pub open spec fn variability_spec(samples: Seq<DaySample>) -> Option<int> {
    match variability_sum(samples) {
        Some(total) => Some(total / 2),
        None => None,
    }
}

/// Whether more than 30 percent of the days of a window have no sample.
pub open spec fn high_data_gap_spec(w: Window) -> bool {
    w.missing_days * 100 > HIGH_GAP_PCT * span_days(w.from@, w.to@)
}

/// Whether a metric is the schedule variability of the two windows.
pub open spec fn is_schedule_variability(
    m: ScheduleVariabilityMetric,
    current: Seq<DaySample>,
    prior: Seq<DaySample>,
    current_window: Window,
) -> bool {
    &&& as_int(m.current_variability_centi) == variability_spec(current)
    &&& as_int(m.prior_variability_centi) == variability_spec(prior)
    &&& m.eligible == (variability_spec(current).is_some() && variability_spec(prior).is_some())
    &&& m.sustained == (m.eligible && variability_sum(current).unwrap()
        >= VARIABILITY_SUM_CENTI && variability_sum(prior).unwrap() >= VARIABILITY_SUM_CENTI)
    &&& m.high_data_gap == high_data_gap_spec(current_window)
}

fn variability_sum_of(samples: &Vec<DaySample>) -> (r: Option<i64>)
    requires
        samples@.len() <= MAX_SAMPLES,
    ensures
        as_int(r) == variability_sum(samples@),
        r.is_some() ==> 0 <= r.unwrap() < 0x100_0000_0000,
{
    let bed = collect_figures(samples, DayKind::Any, Figure::BedRelative);
    let wake = collect_figures(samples, DayKind::Any, Figure::WakeRelative);
    match (std_dev(&bed), std_dev(&wake)) {
        (Some(b), Some(w)) => Some(b + w),
        _ => None,
    }
}

/// Evaluates schedule variability.
///
/// Eligible where the standard deviations can be computed in both windows,
/// that is, with at least two samples in each. Sustained where the metric is
/// eligible and the variability is at least 60 minutes in both windows. The
/// data has a high gap where more than 30 percent of the days of the current
/// window have no sample. Each window may hold at most [`MAX_SAMPLES`]
/// samples.
pub fn schedule_variability(
    current: &Vec<DaySample>,
    prior: &Vec<DaySample>,
    current_window: &Window,
) -> (m: ScheduleVariabilityMetric)
    requires
        current@.len() <= MAX_SAMPLES,
        prior@.len() <= MAX_SAMPLES,
    ensures
        is_schedule_variability(m, current@, prior@, *current_window),
{
    let current_sum = variability_sum_of(current);
    let prior_sum = variability_sum_of(prior);
    let current_variability = match current_sum {
        Some(t) => Some(t / 2),
        None => None,
    };
    let prior_variability = match prior_sum {
        Some(t) => Some(t / 2),
        None => None,
    };
    let eligible = current_sum.is_some() && prior_sum.is_some();
    let sustained = match (current_sum, prior_sum) {
        (Some(c), Some(p)) => c >= VARIABILITY_SUM_CENTI && p >= VARIABILITY_SUM_CENTI,
        _ => false,
    };
    let span: i64 = if current_window.to.is_before(&current_window.from) {
        0
    } else {
        current_window.to.days_since(&current_window.from) as i64 + 1
    };
    let high_data_gap = (current_window.missing_days as i64) * 100 > (HIGH_GAP_PCT as i64) * span;
    ScheduleVariabilityMetric {
        eligible,
        current_variability_centi: current_variability,
        prior_variability_centi: prior_variability,
        sustained,
        high_data_gap,
    }
}

} // verus!
