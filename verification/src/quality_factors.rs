//! Quality-factor ranking: which habits go with better-rated nights.
//!
//! A factor splits the quality-rated samples of a window into favorable and
//! unfavorable ones. Its effect is the mean quality of the favorable samples
//! minus that of the unfavorable ones, in hundredths of a score point,
//! rounded towards zero. A factor is stable where its effect has the same
//! sign in the current and in the prior window.

use crate::metrics::{
    as_int, collect_figures, figures, midpoint_median, DayKind, Figure, STABLE_SHIFT_CENTI,
};
use crate::sample::DaySample;
use crate::stats::{
    circular_diff, circular_diff_spec, lemma_filter_next, lemma_push_value,
    lemma_sum_bounds, median, percentile_linear, percentile_linear_spec, sorted_copy,
    sorted_values, sum_of, CENTI_PER_DAY, MAX_SAMPLES,
};
use vstd::prelude::*;

verus! {

/// Quality-rated samples needed in the current window.
pub const MIN_QUALITY_SAMPLES: usize = 40;

/// Different quality scores needed in the current window.
pub const MIN_DISTINCT_QUALITIES: usize = 3;

/// Samples needed on each side of a factor.
pub const MIN_SIDE_SAMPLES: usize = 5;

/// The factors that are ranked.
#[derive(Clone, Copy, Debug, PartialEq, Eq, Structural)]
pub enum QualityFactor {
    /// The duration lies in the personal range: between the 10th and the
    /// 90th percentile of the prior window's durations.
    DurationInPersonalRange,
    /// The sleep midpoint lies within 30 minutes of the window's median midpoint.
    ConsistentMidSleepTiming,
    /// The sleep midpoint lies within 30 minutes of the window's median
    /// weekday midpoint.
    WeekdayScheduleAlignment,
}

/// The test that a factor applies to a sample, with its reference values in
/// hundredths of a minute.
#[derive(Clone, Copy, Debug, PartialEq, Eq, Structural)]
pub enum FactorRule {
    DurationWithin { low: i64, high: i64 },
    MidpointNear { center: i64 },
}

/// Mathematical value of a [`FactorRule`].
pub enum RuleView {
    DurationWithin { low: int, high: int },
    MidpointNear { center: int },
}

impl View for FactorRule {
    type V = RuleView;

    open spec fn view(&self) -> RuleView {
        match self {
            FactorRule::DurationWithin { low, high } => RuleView::DurationWithin {
                low: *low as int,
                high: *high as int,
            },
            FactorRule::MidpointNear { center } => RuleView::MidpointNear { center: *center as int },
        }
    }
}

/// The effect of one factor in both windows.
#[derive(Clone, Copy, Debug)]
pub struct FactorEffect {
    pub factor: QualityFactor,
    pub effect_centi: i64,
    pub prior_effect_centi: Option<i64>,
    pub stable: bool,
}

/// The ranking of the factors.
#[derive(Debug)]
pub struct QualityFactorMetric {
    pub eligible: bool,
    pub rated_count: usize,
    pub distinct_qualities: usize,
    pub factors: Vec<FactorEffect>,
}

/// Whether a sample is favorable under a rule.
pub open spec fn favorable(rule: RuleView, s: DaySample) -> bool {
    match rule {
        RuleView::DurationWithin { low, high } => low <= 100 * s.duration_min <= high,
        RuleView::MidpointNear { center } => circular_diff_spec(
            100 * s.midpoint_clock_min,
            center,
            CENTI_PER_DAY as int,
        ) <= STABLE_SHIFT_CENTI,
    }
}

/// The condition "is rated, and is on this side of the rule".
pub open spec fn on_side(rule: RuleView, side: bool) -> spec_fn(DaySample) -> bool {
    |s: DaySample| s.quality.is_some() && favorable(rule, s) == side
}

/// The condition "is rated".
pub open spec fn is_rated() -> spec_fn(DaySample) -> bool {
    |s: DaySample| s.quality.is_some()
}

/// The quality score of a sample; 0 for an unrated one.
pub open spec fn score_of() -> spec_fn(DaySample) -> i32 {
    |s: DaySample|
        match s.quality {
            Some(q) => q,
            None => 0,
        }
}

/// The quality scores of the rated samples on one side of a rule.
pub open spec fn side_scores(samples: Seq<DaySample>, rule: RuleView, side: bool) -> Seq<i32> {
    samples.filter(on_side(rule, side)).map_values(score_of())
}

/// The quality scores of the rated samples.
pub open spec fn rated_scores(samples: Seq<DaySample>) -> Seq<i32> {
    samples.filter(is_rated()).map_values(score_of())
}

/// Number of different values in a sorted sequence: the number of places
/// where a value differs from the one before it.
pub open spec fn runs(sorted: Seq<i32>) -> nat
    decreases sorted.len(),
{
    if sorted.len() == 0 {
        0
    } else if sorted.len() == 1 {
        1
    } else {
        runs(sorted.drop_last()) + if sorted.last() != sorted[sorted.len() - 2] {
            1nat
        } else {
            0nat
        }
    }
}

/// Number of different values among some scores.
pub open spec fn distinct_count(values: Seq<i32>) -> nat {
    runs(sorted_values(values))
}

/// Difference of the mean scores of two sides, times the product of the two
/// counts: `sum(fav) * n(unf) - sum(unf) * n(fav)`. Its sign is the sign of
/// the effect.
pub open spec fn effect_numerator(fav: Seq<i32>, unf: Seq<i32>) -> int {
    sum_of(fav) * unf.len() - sum_of(unf) * fav.len()
}

/// A quotient in hundredths, rounded towards zero.
pub open spec fn ratio_centi(num: int, den: int) -> int {
    if num >= 0 {
        (100 * num) / den
    } else {
        -((100 * (-num)) / den)
    }
}

/// Sign of a number: -1, 0 or 1.
pub open spec fn sign_of(x: int) -> int {
    if x > 0 {
        1
    } else if x < 0 {
        -1
    } else {
        0
    }
}

/// The effect of a rule on the samples of a window, in hundredths, and the
/// sign of the effect; nothing unless both sides hold at least 5 rated
/// samples.
pub open spec fn effect_spec(samples: Seq<DaySample>, rule: RuleView) -> Option<(int, int)> {
    let fav = side_scores(samples, rule, true);
    let unf = side_scores(samples, rule, false);
    if fav.len() >= MIN_SIDE_SAMPLES && unf.len() >= MIN_SIDE_SAMPLES {
        let num = effect_numerator(fav, unf);
        Some((ratio_centi(num, (fav.len() * unf.len()) as int), sign_of(num)))
    } else {
        None
    }
}

/// The rule of a factor for a window, where its reference values exist. The
/// personal range always comes from the prior window; the midpoint medians
/// come from the window that is looked at.
pub open spec fn rule_spec(factor: QualityFactor, window: Seq<DaySample>, prior: Seq<DaySample>)
    -> Option<RuleView> {
    match factor {
        QualityFactor::DurationInPersonalRange => {
            let durations = figures(prior, DayKind::Any, Figure::Duration);
            if durations.len() == 0 {
                None
            } else {
                Some(
                    RuleView::DurationWithin {
                        low: percentile_linear_spec(durations, 10).unwrap(),
                        high: percentile_linear_spec(durations, 90).unwrap(),
                    },
                )
            }
        },
        QualityFactor::ConsistentMidSleepTiming => match midpoint_median(window, DayKind::Any) {
            Some(center) => Some(RuleView::MidpointNear { center }),
            None => None,
        },
        QualityFactor::WeekdayScheduleAlignment => match midpoint_median(
            window,
            DayKind::Weekday,
        ) {
            Some(center) => Some(RuleView::MidpointNear { center }),
            None => None,
        },
    }
}

/// The effect of a factor in a window, with its sign, where it can be computed.
pub open spec fn factor_effect_spec(
    factor: QualityFactor,
    window: Seq<DaySample>,
    prior: Seq<DaySample>,
) -> Option<(int, int)> {
    match rule_spec(factor, window, prior) {
        Some(rule) => effect_spec(window, rule),
        None => None,
    }
}

/// Whether an entry reports a factor rightly: the effect in the current
/// window, the effect in the prior window where it can be computed, and
/// stability, which asks for both effects and equal signs.
pub open spec fn is_factor_effect(e: FactorEffect, current: Seq<DaySample>, prior: Seq<DaySample>)
    -> bool {
    let now = factor_effect_spec(e.factor, current, prior);
    let before = factor_effect_spec(e.factor, prior, prior);
    &&& now.is_some()
    &&& e.effect_centi == now.unwrap().0
    &&& match before {
        Some(b) => as_int(e.prior_effect_centi) == Some(b.0) && e.stable == (b.1 == now.unwrap().1),
        None => e.prior_effect_centi.is_none() && !e.stable,
    }
}

/// Distance of a number from zero.
pub open spec fn magnitude(x: int) -> int {
    if x >= 0 {
        x
    } else {
        -x
    }
}

/// Whether some entry reports the factor.
pub open spec fn ranks_factor(factors: Seq<FactorEffect>, factor: QualityFactor) -> bool {
    exists|i: int| 0 <= i < factors.len() && (#[trigger] factors[i]).factor == factor
}

/// Place of a factor among the three.
pub open spec fn factor_order(f: QualityFactor) -> int {
    match f {
        QualityFactor::DurationInPersonalRange => 0,
        QualityFactor::ConsistentMidSleepTiming => 1,
        QualityFactor::WeekdayScheduleAlignment => 2,
    }
}

/// Whether one entry is ranked before another: its effect is the larger in
/// size, or of equal size with its factor the earlier of the three.
pub open spec fn ranked_before(a: FactorEffect, b: FactorEffect) -> bool {
    magnitude(a.effect_centi as int) > magnitude(b.effect_centi as int) || (magnitude(
        a.effect_centi as int,
    ) == magnitude(b.effect_centi as int) && factor_order(a.factor) < factor_order(b.factor))
}

/// Whether the entries come in decreasing order of the size of their effect,
/// entries of equal size in the order of their factors.
pub open spec fn by_decreasing_size(factors: Seq<FactorEffect>) -> bool {
    forall|i: int, j: int|
        0 <= i < j < factors.len() ==> ranked_before(#[trigger] factors[i], #[trigger] factors[j])
}

/// Whether the entries are the ranking of the factors: each factor whose
/// effect can be computed in the current window appears once, rightly
/// reported, and the entries come in decreasing order of the size of their
/// effect, entries of equal size in the order of their factors.
pub open spec fn is_ranking(
    factors: Seq<FactorEffect>,
    current: Seq<DaySample>,
    prior: Seq<DaySample>,
) -> bool {
    &&& forall|i: int|
        0 <= i < factors.len() ==> is_factor_effect(#[trigger] factors[i], current, prior)
    &&& forall|i: int, j: int|
        0 <= i < j < factors.len() ==> (#[trigger] factors[i]).factor != (
        #[trigger] factors[j]).factor
    &&& by_decreasing_size(factors)
    &&& forall|f: QualityFactor|
        factor_effect_spec(f, current, prior).is_some() ==> #[trigger] ranks_factor(factors, f)
}

/// Whether every entry is stable.
pub open spec fn all_stable(factors: Seq<FactorEffect>) -> bool {
    forall|i: int| 0 <= i < factors.len() ==> (#[trigger] factors[i]).stable
}

/// Whether a metric is the quality-factor ranking of the two windows.
pub open spec fn is_quality_factors(
    m: QualityFactorMetric,
    current: Seq<DaySample>,
    prior: Seq<DaySample>,
) -> bool {
    &&& m.rated_count == rated_scores(current).len()
    &&& m.distinct_qualities == distinct_count(rated_scores(current))
    &&& is_ranking(m.factors@, current, prior)
    &&& m.eligible == (m.rated_count >= MIN_QUALITY_SAMPLES && m.distinct_qualities
        >= MIN_DISTINCT_QUALITIES && m.factors@.len() > 0 && all_stable(m.factors@))
}

fn is_favorable(rule: &FactorRule, s: &DaySample) -> (r: bool)
    ensures
        r == favorable(rule@, *s),
{
    match rule {
        FactorRule::DurationWithin { low, high } => {
            let d: i64 = 100 * (s.duration_min as i64);
            *low <= d && d <= *high
        },
        FactorRule::MidpointNear { center } => {
            circular_diff(100 * (s.midpoint_clock_min as i64), *center, CENTI_PER_DAY)
                <= STABLE_SHIFT_CENTI
        },
    }
}

fn collect_side_scores(samples: &Vec<DaySample>, rule: &FactorRule, side: bool) -> (out: Vec<i32>)
    ensures
        out@ == side_scores(samples@, rule@, side),
        out@.len() <= samples@.len(),
{
    let ghost pred = on_side(rule@, side);
    let mut out: Vec<i32> = Vec::new();
    let mut i: usize = 0;
    assert(samples@.take(0).filter(pred) =~= Seq::<DaySample>::empty());
    assert(Seq::<DaySample>::empty().map_values(score_of()) =~= Seq::<i32>::empty());
    while i < samples.len()
        invariant
            i <= samples.len(),
            pred == on_side(rule@, side),
            out@ == samples@.take(i as int).filter(pred).map_values(score_of()),
            out@.len() <= i,
        decreases samples.len() - i,
    {
        let s = &samples[i];
        proof {
            lemma_filter_next(samples@, pred, i as int);
        }
        match s.quality {
            Some(q) => {
                if is_favorable(rule, s) == side {
                    proof {
                        let chosen = samples@.take(i as int).filter(pred);
                        assert(pred(samples@[i as int]));
                        assert(chosen.push(*s).map_values(score_of()) =~= chosen.map_values(
                            score_of(),
                        ).push(q));
                    }
                    out.push(q);
                } else {
                    assert(!pred(samples@[i as int]));
                }
            },
            None => {
                assert(!pred(samples@[i as int]));
            },
        }
        i += 1;
    }
    assert(samples@.take(samples@.len() as int) =~= samples@);
    out
}

fn collect_rated_scores(samples: &Vec<DaySample>) -> (out: Vec<i32>)
    ensures
        out@ == rated_scores(samples@),
        out@.len() <= samples@.len(),
{
    let ghost pred = is_rated();
    let mut out: Vec<i32> = Vec::new();
    let mut i: usize = 0;
    assert(samples@.take(0).filter(pred) =~= Seq::<DaySample>::empty());
    assert(Seq::<DaySample>::empty().map_values(score_of()) =~= Seq::<i32>::empty());
    while i < samples.len()
        invariant
            i <= samples.len(),
            pred == is_rated(),
            out@ == samples@.take(i as int).filter(pred).map_values(score_of()),
            out@.len() <= i,
        decreases samples.len() - i,
    {
        let s = &samples[i];
        proof {
            lemma_filter_next(samples@, pred, i as int);
        }
        match s.quality {
            Some(q) => {
                proof {
                    let chosen = samples@.take(i as int).filter(pred);
                    assert(pred(samples@[i as int]));
                    assert(chosen.push(*s).map_values(score_of()) =~= chosen.map_values(
                        score_of(),
                    ).push(q));
                }
                out.push(q);
            },
            None => {
                assert(!pred(samples@[i as int]));
            },
        }
        i += 1;
    }
    assert(samples@.take(samples@.len() as int) =~= samples@);
    out
}

fn total_of(values: &Vec<i32>) -> (total: i64)
    requires
        values@.len() <= MAX_SAMPLES,
    ensures
        total == sum_of(values@),
        -(values@.len() * 0x8000_0000) <= total <= values@.len() * 0x8000_0000,
{
    let mut total: i64 = 0;
    let mut i: usize = 0;
    assert(values@.take(0) =~= Seq::<i32>::empty());
    while i < values.len()
        invariant
            i <= values.len(),
            values@.len() <= MAX_SAMPLES,
            total == sum_of(values@.take(i as int)),
            -(i * 0x8000_0000) <= total <= i * 0x8000_0000,
        decreases values.len() - i,
    {
        proof {
            assert(values@.take(i + 1) =~= values@.take(i as int).push(values@[i as int]));
            lemma_push_value(values@.take(i as int), values@[i as int]);
            lemma_sum_bounds(values@.take(i + 1));
        }
        total = total + values[i] as i64;
        i += 1;
    }
    assert(values@.take(values@.len() as int) =~= values@);
    total
}

/// Number of different values among some scores.
pub fn count_distinct(values: &Vec<i32>) -> (count: usize)
    ensures
        count == distinct_count(values@),
{
    let sorted = sorted_copy(values);
    let mut count: usize = 0;
    let mut i: usize = 0;
    assert(sorted@.take(0) =~= Seq::<i32>::empty());
    while i < sorted.len()
        invariant
            i <= sorted.len(),
            count == runs(sorted@.take(i as int)),
            count <= i,
        decreases sorted.len() - i,
    {
        proof {
            let next = sorted@.take(i + 1);
            assert(next.drop_last() =~= sorted@.take(i as int));
            assert(next.last() == sorted@[i as int]);
            if i > 0 {
                assert(next[next.len() - 2] == sorted@[i - 1]);
            }
        }
        if i == 0 || sorted[i] != sorted[i - 1] {
            count += 1;
        }
        i += 1;
    }
    assert(sorted@.take(sorted@.len() as int) =~= sorted@);
    count
}

proof fn lemma_effect_bounds(fav: Seq<i32>, unf: Seq<i32>)
    requires
        fav.len() >= 1,
        unf.len() >= 1,
        fav.len() <= MAX_SAMPLES,
        unf.len() <= MAX_SAMPLES,
    ensures
        -(fav.len() * unf.len() * 0x1_0000_0000) <= effect_numerator(fav, unf) <= fav.len()
            * unf.len() * 0x1_0000_0000,
        1 <= fav.len() * unf.len() <= 0x1_0000_0000_0000,
        -0x64_0000_0000 <= ratio_centi(effect_numerator(fav, unf), (fav.len() * unf.len()) as int)
            <= 0x64_0000_0000,
{
    lemma_sum_bounds(fav);
    lemma_sum_bounds(unf);
    let a = sum_of(fav);
    let b = sum_of(unf);
    let n = fav.len() as int;
    let m = unf.len() as int;
    assert(-(n * m * 0x1_0000_0000) <= a * m - b * n <= n * m * 0x1_0000_0000)
        by (nonlinear_arith)
        requires
            n >= 1,
            m >= 1,
            -(n * 0x8000_0000) <= a <= n * 0x8000_0000,
            -(m * 0x8000_0000) <= b <= m * 0x8000_0000,
    ;
    assert(1 <= n * m <= 0x1_0000_0000_0000) by (nonlinear_arith)
        requires
            1 <= n <= 0x100_0000,
            1 <= m <= 0x100_0000,
    ;
    let num = a * m - b * n;
    let den = n * m;
    if num >= 0 {
        assert((100 * num) / den <= 0x64_0000_0000) by (nonlinear_arith)
            requires
                0 <= num <= den * 0x1_0000_0000,
                den >= 1,
        ;
        assert((100 * num) / den >= 0) by (nonlinear_arith)
            requires
                0 <= num,
                den >= 1,
        ;
    } else {
        assert((100 * (-num)) / den <= 0x64_0000_0000) by (nonlinear_arith)
            requires
                0 <= -num <= den * 0x1_0000_0000,
                den >= 1,
        ;
        assert((100 * (-num)) / den >= 0) by (nonlinear_arith)
            requires
                0 <= -num,
                den >= 1,
        ;
    }
}

/// The effect of a rule on the samples of a window, in hundredths, with its
/// sign; `None` unless both sides hold at least 5 rated samples.
pub fn effect_of(samples: &Vec<DaySample>, rule: &FactorRule) -> (r: Option<(i64, i8)>)
    requires
        samples@.len() <= MAX_SAMPLES,
    ensures
        match r {
            Some(e) => effect_spec(samples@, rule@) == Some((e.0 as int, e.1 as int))
                && -0x64_0000_0000 <= e.0 <= 0x64_0000_0000,
            None => effect_spec(samples@, rule@).is_none(),
        },
{
    let fav = collect_side_scores(samples, rule, true);
    let unf = collect_side_scores(samples, rule, false);
    if fav.len() < MIN_SIDE_SAMPLES || unf.len() < MIN_SIDE_SAMPLES {
        return None;
    }
    let fav_total: i128 = total_of(&fav) as i128;
    let unf_total: i128 = total_of(&unf) as i128;
    let n: i128 = fav.len() as i128;
    let m: i128 = unf.len() as i128;
    proof {
        lemma_effect_bounds(fav@, unf@);
        assert(-(0x100_0000 * 0x8000_0000 * 0x100_0000) <= fav_total * m <= 0x100_0000
            * 0x8000_0000 * 0x100_0000) by (nonlinear_arith)
            requires
                -(n * 0x8000_0000) <= fav_total <= n * 0x8000_0000,
                1 <= n <= 0x100_0000,
                1 <= m <= 0x100_0000,
        ;
        assert(-(0x100_0000 * 0x8000_0000 * 0x100_0000) <= unf_total * n <= 0x100_0000
            * 0x8000_0000 * 0x100_0000) by (nonlinear_arith)
            requires
                -(m * 0x8000_0000) <= unf_total <= m * 0x8000_0000,
                1 <= n <= 0x100_0000,
                1 <= m <= 0x100_0000,
        ;
        assert(1 <= n * m <= 0x1_0000_0000_0000) by (nonlinear_arith)
            requires
                1 <= n <= 0x100_0000,
                1 <= m <= 0x100_0000,
        ;
    }
    let num: i128 = fav_total * m - unf_total * n;
    let den: u128 = (n * m) as u128;
    assert(num == effect_numerator(fav@, unf@));
    if num >= 0 {
        let e: u128 = (100 * (num as u128)) / den;
        let sign: i8 = if num > 0 {
            1
        } else {
            0
        };
        Some((e as i64, sign))
    } else {
        let e: u128 = (100 * ((-num) as u128)) / den;
        Some((-(e as i64), -1))
    }
}

/// The rule of a factor for a window, where its reference values exist.
pub fn rule_of(factor: QualityFactor, window: &Vec<DaySample>, prior: &Vec<DaySample>) -> (r:
    Option<FactorRule>)
    ensures
        match r {
            Some(rule) => rule_spec(factor, window@, prior@) == Some(rule@),
            None => rule_spec(factor, window@, prior@).is_none(),
        },
{
    match factor {
        QualityFactor::DurationInPersonalRange => {
            let durations = collect_figures(prior, DayKind::Any, Figure::Duration);
            match (percentile_linear(&durations, 10), percentile_linear(&durations, 90)) {
                (Some(low), Some(high)) => Some(FactorRule::DurationWithin { low, high }),
                _ => None,
            }
        },
        QualityFactor::ConsistentMidSleepTiming => {
            let midpoints = collect_figures(window, DayKind::Any, Figure::Midpoint);
            match median(&midpoints) {
                Some(center) => Some(FactorRule::MidpointNear { center }),
                None => None,
            }
        },
        QualityFactor::WeekdayScheduleAlignment => {
            let midpoints = collect_figures(window, DayKind::Weekday, Figure::Midpoint);
            match median(&midpoints) {
                Some(center) => Some(FactorRule::MidpointNear { center }),
                None => None,
            }
        },
    }
}

fn factor_effect(factor: QualityFactor, window: &Vec<DaySample>, prior: &Vec<DaySample>) -> (r:
    Option<(i64, i8)>)
    requires
        window@.len() <= MAX_SAMPLES,
    ensures
        match r {
            Some(e) => factor_effect_spec(factor, window@, prior@) == Some((e.0 as int, e.1 as int))
                && -0x64_0000_0000 <= e.0 <= 0x64_0000_0000,
            None => factor_effect_spec(factor, window@, prior@).is_none(),
        },
{
    match rule_of(factor, window, prior) {
        Some(rule) => effect_of(window, &rule),
        None => None,
    }
}

/// The report of one factor, where its effect can be computed in the current window.
pub fn evaluate_factor(factor: QualityFactor, current: &Vec<DaySample>, prior: &Vec<DaySample>)
    -> (r: Option<FactorEffect>)
    requires
        current@.len() <= MAX_SAMPLES,
        prior@.len() <= MAX_SAMPLES,
    ensures
        match r {
            Some(e) => e.factor == factor && is_factor_effect(e, current@, prior@)
                && -0x64_0000_0000 <= e.effect_centi <= 0x64_0000_0000,
            None => factor_effect_spec(factor, current@, prior@).is_none(),
        },
{
    match factor_effect(factor, current, prior) {
        Some((effect, sign)) => {
            let before = factor_effect(factor, prior, prior);
            let (prior_effect, stable) = match before {
                Some((e, s)) => (Some(e), s == sign),
                None => (None, false),
            };
            Some(
                FactorEffect {
                    factor,
                    effect_centi: effect,
                    prior_effect_centi: prior_effect,
                    stable,
                },
            )
        },
        None => None,
    }
}

fn size_of(x: i64) -> (r: i64)
    requires
        x > i64::MIN,
    ensures
        r == magnitude(x as int),
{
    if x >= 0 {
        x
    } else {
        -x
    }
}

/// Whether every effect is small enough for its size to be taken.
pub open spec fn sizes_fit(factors: Seq<FactorEffect>) -> bool {
    forall|i: int| 0 <= i < factors.len() ==> (#[trigger] factors[i]).effect_centi > i64::MIN
}

fn rank_in(factors: &mut Vec<FactorEffect>, e: FactorEffect) -> (pos: Ghost<int>)
    requires
        by_decreasing_size(old(factors)@),
        sizes_fit(old(factors)@),
        e.effect_centi > i64::MIN,
        forall|k: int|
            0 <= k < old(factors)@.len() ==> factor_order((#[trigger] old(factors)@[k]).factor)
                < factor_order(e.factor),
    ensures
        0 <= pos@ <= old(factors)@.len(),
        final(factors)@ == old(factors)@.insert(pos@, e),
        by_decreasing_size(final(factors)@),
        sizes_fit(final(factors)@),
{
    let size = size_of(e.effect_centi);
    let mut at: usize = 0;
    while at < factors.len() && size_of(factors[at].effect_centi) >= size
        invariant
            at <= factors@.len(),
            factors@ == old(factors)@,
            sizes_fit(factors@),
            size == magnitude(e.effect_centi as int),
            forall|k: int|
                0 <= k < at ==> magnitude((#[trigger] factors@[k]).effect_centi as int) >= size,
            forall|k: int|
                0 <= k < factors@.len() ==> factor_order((#[trigger] factors@[k]).factor)
                    < factor_order(e.factor),
        decreases factors@.len() - at,
    {
        at += 1;
    }
    let ghost before = factors@;
    factors.insert(at, e);
    proof {
        assert forall|i: int, j: int| 0 <= i < j < factors@.len() implies ranked_before(
            #[trigger] factors@[i],
            #[trigger] factors@[j],
        ) by {
            if j < at {
                assert(factors@[i] == before[i] && factors@[j] == before[j]);
            } else if j == at {
                assert(factors@[i] == before[i]);
            } else {
                assert(factors@[j] == before[j - 1]);
                assert(magnitude(before[at as int].effect_centi as int) < size);
                if i < at {
                    assert(factors@[i] == before[i]);
                } else if i > at {
                    assert(factors@[i] == before[i - 1]);
                } else if j - 1 > at {
                    assert(ranked_before(before[at as int], before[j - 1]));
                }
            }
        }
        assert forall|i: int| 0 <= i < factors@.len() implies (
        #[trigger] factors@[i]).effect_centi > i64::MIN by {
            if i < at {
                assert(factors@[i] == before[i]);
            } else if i > at {
                assert(factors@[i] == before[i - 1]);
            }
        }
    }
    Ghost(at as int)
}

/// Whether the entries are the ranking of the given factors alone.
spec fn ranks_only(
    factors: Seq<FactorEffect>,
    among: Set<QualityFactor>,
    current: Seq<DaySample>,
    prior: Seq<DaySample>,
) -> bool {
    &&& forall|i: int|
        0 <= i < factors.len() ==> is_factor_effect(#[trigger] factors[i], current, prior)
            && among.contains(factors[i].factor)
    &&& forall|i: int, j: int|
        0 <= i < j < factors.len() ==> (#[trigger] factors[i]).factor != (
        #[trigger] factors[j]).factor
    &&& by_decreasing_size(factors)
    &&& sizes_fit(factors)
    &&& forall|f: QualityFactor|
        among.contains(f) && factor_effect_spec(f, current, prior).is_some()
            ==> #[trigger] ranks_factor(factors, f)
}

fn rank_factor(
    factors: &mut Vec<FactorEffect>,
    factor: QualityFactor,
    current: &Vec<DaySample>,
    prior: &Vec<DaySample>,
    Ghost(among): Ghost<Set<QualityFactor>>,
)
    requires
        current@.len() <= MAX_SAMPLES,
        prior@.len() <= MAX_SAMPLES,
        ranks_only(old(factors)@, among, current@, prior@),
        !among.contains(factor),
        forall|f: QualityFactor| among.contains(f) ==> factor_order(f) < factor_order(factor),
    ensures
        ranks_only(final(factors)@, among.insert(factor), current@, prior@),
{
    let ghost before = factors@;
    match evaluate_factor(factor, current, prior) {
        Some(e) => {
            let pos = rank_in(factors, e);
            proof {
                let after = factors@;
                let p = pos@;
                assert(after[p] == e);
                assert forall|i: int| 0 <= i < after.len() implies is_factor_effect(
                    #[trigger] after[i],
                    current@,
                    prior@,
                ) && among.insert(factor).contains(after[i].factor) by {
                    if i < p {
                        assert(after[i] == before[i]);
                    } else if i > p {
                        assert(after[i] == before[i - 1]);
                    }
                }
                assert forall|i: int, j: int| 0 <= i < j < after.len() implies (
                #[trigger] after[i]).factor != (#[trigger] after[j]).factor by {
                    if i < p {
                        assert(after[i] == before[i]);
                    } else if i > p {
                        assert(after[i] == before[i - 1]);
                    }
                    if j < p {
                        assert(after[j] == before[j]);
                    } else if j > p {
                        assert(after[j] == before[j - 1]);
                    }
                }
                assert forall|f: QualityFactor|
                    among.insert(factor).contains(f) && factor_effect_spec(
                        f,
                        current@,
                        prior@,
                    ).is_some() implies #[trigger] ranks_factor(after, f) by {
                    if f == factor {
                        assert(after[p].factor == f);
                    } else {
                        assert(ranks_factor(before, f));
                        let w = choose|w: int| 0 <= w < before.len() && before[w].factor == f;
                        if w < p {
                            assert(after[w] == before[w]);
                        } else {
                            assert(after[w + 1] == before[w]);
                        }
                    }
                }
            }
        },
        None => {
            proof {
                assert forall|f: QualityFactor|
                    among.insert(factor).contains(f) && factor_effect_spec(
                        f,
                        current@,
                        prior@,
                    ).is_some() implies #[trigger] ranks_factor(before, f) by {
                    assert(f != factor);
                }
            }
        },
    }
}

fn every_stable(factors: &Vec<FactorEffect>) -> (r: bool)
    ensures
        r == all_stable(factors@),
{
    let mut i: usize = 0;
    while i < factors.len()
        invariant
            i <= factors.len(),
            forall|k: int| 0 <= k < i ==> (#[trigger] factors@[k]).stable,
        decreases factors.len() - i,
    {
        if !factors[i].stable {
            return false;
        }
        i += 1;
    }
    true
}

/// Ranks the quality factors.
///
/// Each of the three factors is evaluated in the current and in the prior
/// window. A factor is ranked where both of its sides hold at least 5 rated
/// samples in the current window; the ranked factors come in decreasing
/// order of the size of their effect. Eligible with at least 40 rated
/// samples and at least 3 different scores in the current window, at least
/// one ranked factor, and every ranked factor stable. Each window may hold
/// at most [`MAX_SAMPLES`] samples.
pub fn quality_factors(current: &Vec<DaySample>, prior: &Vec<DaySample>) -> (m:
    QualityFactorMetric)
    requires
        current@.len() <= MAX_SAMPLES,
        prior@.len() <= MAX_SAMPLES,
    ensures
        is_quality_factors(m, current@, prior@),
        m.factors@.len() <= 3,
{
    let rated = collect_rated_scores(current);
    let distinct = count_distinct(&rated);
    let mut factors: Vec<FactorEffect> = Vec::new();
    let ghost none = Set::<QualityFactor>::empty();
    rank_factor(&mut factors, QualityFactor::DurationInPersonalRange, current, prior, Ghost(none));
    let ghost one = none.insert(QualityFactor::DurationInPersonalRange);
    rank_factor(&mut factors, QualityFactor::ConsistentMidSleepTiming, current, prior, Ghost(one));
    let ghost two = one.insert(QualityFactor::ConsistentMidSleepTiming);
    rank_factor(&mut factors, QualityFactor::WeekdayScheduleAlignment, current, prior, Ghost(two));
    proof {
        let all = two.insert(QualityFactor::WeekdayScheduleAlignment);
        assert forall|f: QualityFactor|
            factor_effect_spec(f, current@, prior@).is_some() implies #[trigger] ranks_factor(
            factors@,
            f,
        ) by {
            assert(all.contains(f));
        }
        lemma_at_most_three(factors@);
    }
    let eligible = rated.len() >= MIN_QUALITY_SAMPLES && distinct >= MIN_DISTINCT_QUALITIES
        && factors.len() > 0 && every_stable(&factors);
    QualityFactorMetric {
        eligible,
        rated_count: rated.len(),
        distinct_qualities: distinct,
        factors,
    }
}

proof fn lemma_at_most_three(factors: Seq<FactorEffect>)
    requires
        forall|i: int, j: int|
            0 <= i < j < factors.len() ==> (#[trigger] factors[i]).factor != (
            #[trigger] factors[j]).factor,
    ensures
        factors.len() <= 3,
{
    if factors.len() >= 4 {
        let a = factor_order(factors[0].factor);
        let b = factor_order(factors[1].factor);
        let c = factor_order(factors[2].factor);
        let d = factor_order(factors[3].factor);
        assert(factors[0].factor != factors[1].factor);
        assert(factors[0].factor != factors[2].factor);
        assert(factors[0].factor != factors[3].factor);
        assert(factors[1].factor != factors[2].factor);
        assert(factors[1].factor != factors[3].factor);
        assert(factors[2].factor != factors[3].factor);
    }
}

} // verus!
