//! Recommendations: what each metric justifies telling the user.
//!
//! Every metric has one action. The action is recommended where each of its
//! preconditions holds, and suppressed otherwise, with one reason per
//! precondition that fails, in the order of the preconditions. A recommended
//! action has high confidence where the evidence is strong and medium
//! confidence otherwise; a suppressed action has low confidence.

use crate::metrics::{
    DayTypeTimingMetric, DurationBaselineMetric, ScheduleVariabilityMetric, SocialJetlagMetric,
    MIN_WEEKDAY_SAMPLES, MIN_WEEKEND_SAMPLES, OUT_OF_RANGE_TRIGGER_PCT,
};
use crate::quality_factors::{
    all_stable, QualityFactorMetric, MIN_DISTINCT_QUALITIES, MIN_QUALITY_SAMPLES,
};
use crate::stats::lemma_filter_next;
use vstd::prelude::*;

verus! {

/// Whether an action is put before the user.
#[derive(Clone, Copy, Debug, PartialEq, Eq, Structural)]
pub enum ActionStatus {
    Recommended,
    Suppressed,
}

/// How much the evidence supports an action.
#[derive(Clone, Copy, Debug, PartialEq, Eq, Structural)]
pub enum Confidence {
    High,
    Medium,
    Low,
}

/// One action with its status.
#[derive(Debug)]
pub struct ActionRecommendation {
    pub action_key: &'static str,
    pub status: ActionStatus,
    pub confidence: Confidence,
    pub rationale: &'static str,
    pub suppression_reasons: Vec<&'static str>,
}

/// A precondition of an action: whether it holds, and the reason given where
/// it does not.
#[derive(Clone, Copy, Debug)]
pub struct Check {
    pub holds: bool,
    pub reason: &'static str,
}

/// Key of the duration action.
pub const DURATION_KEY: &'static str = "personal_duration_warning_tuning";

/// Key of the day-type action.
pub const DAY_TYPE_KEY: &'static str = "day_type_default_prefill";

/// Key of the social-jetlag action.
pub const JETLAG_KEY: &'static str = "social_jetlag_schedule_shift_insight";

/// Key of the regularity action.
pub const REGULARITY_KEY: &'static str = "regularity_insight_priority";

/// Key of the quality action.
pub const QUALITY_KEY: &'static str = "quality_aligned_factor_explanation";

/// Why the duration action is offered.
pub const DURATION_RATIONALE: &'static str =
    "Tune duration warnings to the range of durations that is usual for this sleeper.";

/// Why the day-type action is offered.
pub const DAY_TYPE_RATIONALE: &'static str =
    "Pre-fill bed and wake times by kind of day: weekdays and weekends follow their own steady schedule.";

/// Why the social-jetlag action is offered.
pub const JETLAG_RATIONALE: &'static str =
    "Sleep on weekends is shifted against weekdays; a steadier schedule eases the change.";

/// Why the regularity action is offered.
pub const REGULARITY_RATIONALE: &'static str =
    "Bed and wake times vary widely; regular times come first among the insights.";

/// Why the quality action is offered.
pub const QUALITY_RATIONALE: &'static str =
    "Nights rated better share habits; the explanation names the ones that hold up over time.";

/// Share of current sessions outside the personal range, in percent, from
/// which the duration evidence is strong.
pub const STRONG_OUT_OF_RANGE_PCT: u32 = 10;

/// Twice the jetlag threshold: the weekend shift, in hundredths of a minute,
/// from which the jetlag evidence is strong.
pub const STRONG_JETLAG_CENTI: i64 = 6_000;

/// Sum of the two standard deviations, in hundredths of a minute, from which
/// the variability evidence is strong: a variability of 90 minutes.
pub const STRONG_VARIABILITY_SUM_CENTI: i64 = 18_000;

/// Rated samples from which the quality evidence is strong.
pub const STRONG_QUALITY_SAMPLES: usize = 80;

/// The texts of some words.
pub open spec fn texts(words: Seq<&'static str>) -> Seq<Seq<char>> {
    words.map_values(|w: &'static str| w@)
}

/// The condition "does not hold".
pub open spec fn fails() -> spec_fn(Check) -> bool {
    |c: Check| !c.holds
}

/// The reasons of the preconditions that fail, in the order of the preconditions.
pub open spec fn failed_reasons(checks: Seq<Check>) -> Seq<&'static str> {
    checks.filter(fails()).map_values(|c: Check| c.reason)
}

/// A precondition by its meaning: whether it holds, and its reason as text.
pub open spec fn meanings(checks: Seq<Check>) -> Seq<(bool, Seq<char>)> {
    checks.map_values(|c: Check| (c.holds, c.reason@))
}

/// Whether an action is the one decided by the preconditions: it carries the
/// given key and rationale and the reasons of the preconditions that fail;
/// it is recommended exactly when none fails; its confidence is high or
/// medium where it is recommended, by the strength of the evidence, and low
/// where it is suppressed.
pub open spec fn is_decided_by(
    r: ActionRecommendation,
    key: Seq<char>,
    rationale: Seq<char>,
    checks: Seq<Check>,
    strong: bool,
) -> bool {
    &&& r.action_key@ == key
    &&& r.rationale@ == rationale
    &&& r.suppression_reasons@ == failed_reasons(checks)
    &&& r.status == if failed_reasons(checks).len() == 0 {
        ActionStatus::Recommended
    } else {
        ActionStatus::Suppressed
    }
    &&& r.confidence == if failed_reasons(checks).len() > 0 {
        Confidence::Low
    } else if strong {
        Confidence::High
    } else {
        Confidence::Medium
    }
}

/// Decides an action from its preconditions.
pub fn decide(key: &'static str, rationale: &'static str, checks: &Vec<Check>, strong: bool) -> (r:
    ActionRecommendation)
    ensures
        is_decided_by(r, key@, rationale@, checks@, strong),
        (r.status == ActionStatus::Recommended) <==> r.suppression_reasons@.len() == 0,
{
    let mut reasons: Vec<&'static str> = Vec::new();
    let mut i: usize = 0;
    assert(checks@.take(0).filter(fails()) =~= Seq::<Check>::empty());
    assert(Seq::<Check>::empty().map_values(|c: Check| c.reason) =~= Seq::<&'static str>::empty());
    while i < checks.len()
        invariant
            i <= checks.len(),
            reasons@ == failed_reasons(checks@.take(i as int)),
        decreases checks.len() - i,
    {
        let c = checks[i];
        proof {
            lemma_filter_next(checks@, fails(), i as int);
            let chosen = checks@.take(i as int).filter(fails());
            assert(chosen.push(c).map_values(|c: Check| c.reason) =~= chosen.map_values(
                |c: Check| c.reason,
            ).push(c.reason));
        }
        if !c.holds {
            assert(fails()(checks@[i as int]));
            reasons.push(c.reason);
        } else {
            assert(!fails()(checks@[i as int]));
        }
        i += 1;
    }
    assert(checks@.take(checks@.len() as int) =~= checks@);
    let recommended = reasons.len() == 0;
    ActionRecommendation {
        action_key: key,
        status: if recommended {
            ActionStatus::Recommended
        } else {
            ActionStatus::Suppressed
        },
        confidence: if !recommended {
            Confidence::Low
        } else if strong {
            Confidence::High
        } else {
            Confidence::Medium
        },
        rationale,
        suppression_reasons: reasons,
    }
}

// ---------------------------------------------------------------------------
// The five actions
// ---------------------------------------------------------------------------
/// Whether at least `pct` percent of the current durations lie outside the
/// personal range.
pub open spec fn out_of_range_share_at_least(m: DurationBaselineMetric, pct: int) -> bool {
    m.current_count > 0 && m.out_of_range_count * 100 >= pct * m.current_count
}

/// The preconditions of the duration action, by their meaning.
pub open spec fn duration_checks(m: DurationBaselineMetric) -> Seq<(bool, Seq<char>)> {
    seq![
        (m.eligible, "needs at least 60 baseline sessions in prior window"@),
        (
            out_of_range_share_at_least(m, OUT_OF_RANGE_TRIGGER_PCT as int),
            "fewer than 5% of current sessions fall outside the personal range"@,
        ),
    ]
}

/// The preconditions of the day-type action, by their meaning.
pub open spec fn day_type_checks(m: DayTypeTimingMetric) -> Seq<(bool, Seq<char>)> {
    seq![
        (
            m.weekday_count >= MIN_WEEKDAY_SAMPLES,
            "needs at least 8 weekday sessions in current window"@,
        ),
        (
            m.weekend_count >= MIN_WEEKEND_SAMPLES,
            "needs at least 4 weekend sessions in current window"@,
        ),
        (m.stable, "midpoint medians are not stable against the prior window"@),
        (!m.recent_diverges, "recent sessions diverge from the baseline"@),
    ]
}

/// The preconditions of the social-jetlag action, by their meaning.
pub open spec fn jetlag_checks(m: SocialJetlagMetric) -> Seq<(bool, Seq<char>)> {
    seq![
        (m.eligible, "needs at least 4 weekend sessions in both windows"@),
        (m.sustained, "weekend shift is not at least 30 minutes in both windows"@),
    ]
}

/// The preconditions of the regularity action, by their meaning.
pub open spec fn variability_checks(m: ScheduleVariabilityMetric) -> Seq<(bool, Seq<char>)> {
    seq![
        (m.eligible, "needs at least 2 sessions in both windows"@),
        (m.sustained, "schedule variability is not at least 60 minutes in both windows"@),
        (!m.high_data_gap, "more than 30% of days are missing in current window"@),
    ]
}

/// The preconditions of the quality action, by their meaning.
pub open spec fn quality_checks(m: QualityFactorMetric) -> Seq<(bool, Seq<char>)> {
    seq![
        (
            m.rated_count >= MIN_QUALITY_SAMPLES,
            "needs at least 40 quality-rated sessions in current window"@,
        ),
        (
            m.distinct_qualities >= MIN_DISTINCT_QUALITIES,
            "needs at least 3 distinct quality values"@,
        ),
        (
            m.factors@.len() > 0 && all_stable(m.factors@),
            "factor effects are not stable against the prior window"@,
        ),
    ]
}

/// The condition "does not hold", for a precondition by its meaning.
pub open spec fn fails_by_meaning() -> spec_fn((bool, Seq<char>)) -> bool {
    |c: (bool, Seq<char>)| !c.0
}

/// The reasons of the preconditions that fail, as texts, in the order of the
/// preconditions.
pub open spec fn failed_texts(checks: Seq<(bool, Seq<char>)>) -> Seq<Seq<char>> {
    checks.filter(fails_by_meaning()).map_values(|c: (bool, Seq<char>)| c.1)
}

/// Whether an action is the one that the given preconditions decide: it
/// carries the key and the rationale, and as its reasons the reasons of the
/// preconditions that fail, in their order; it is recommended exactly when
/// none fails; its confidence is low where it is suppressed, and otherwise
/// high or medium by the strength of the evidence.
pub open spec fn is_action(
    r: ActionRecommendation,
    key: Seq<char>,
    rationale: Seq<char>,
    checks: Seq<(bool, Seq<char>)>,
    strong: bool,
) -> bool {
    &&& r.action_key@ == key
    &&& r.rationale@ == rationale
    &&& texts(r.suppression_reasons@) == failed_texts(checks)
    &&& r.status == if failed_texts(checks).len() == 0 {
        ActionStatus::Recommended
    } else {
        ActionStatus::Suppressed
    }
    &&& r.confidence == if failed_texts(checks).len() > 0 {
        Confidence::Low
    } else if strong {
        Confidence::High
    } else {
        Confidence::Medium
    }
}

/// The reasons of the failed preconditions, as texts, are the failed texts of
/// their meanings.
pub proof fn lemma_failed_texts(checks: Seq<Check>)
    ensures
        texts(failed_reasons(checks)) == failed_texts(meanings(checks)),
        failed_reasons(checks).len() == failed_texts(meanings(checks)).len(),
    decreases checks.len(),
{
    reveal_with_fuel(Seq::filter, 2);
    let by_meaning = meanings(checks);
    if checks.len() == 0 {
        assert(checks.filter(fails()) =~= Seq::<Check>::empty());
        assert(by_meaning.filter(fails_by_meaning()) =~= Seq::<(bool, Seq<char>)>::empty());
        assert(texts(failed_reasons(checks)) =~= failed_texts(by_meaning));
    } else {
        let rest = checks.drop_last();
        let last = checks.last();
        lemma_failed_texts(rest);
        assert(by_meaning.drop_last() =~= meanings(rest));
        assert(by_meaning.last() == (last.holds, last.reason@));
        let chosen = rest.filter(fails());
        let chosen_by_meaning = meanings(rest).filter(fails_by_meaning());
        if !last.holds {
            assert(checks.filter(fails()) == chosen.push(last));
            assert(by_meaning.filter(fails_by_meaning()) == chosen_by_meaning.push(
                by_meaning.last(),
            ));
            assert(texts(failed_reasons(checks)) =~= texts(failed_reasons(rest)).push(last.reason@));
            assert(failed_texts(by_meaning) =~= failed_texts(meanings(rest)).push(last.reason@));
        } else {
            assert(checks.filter(fails()) == chosen);
            assert(by_meaning.filter(fails_by_meaning()) == chosen_by_meaning);
        }
    }
}

/// Whether the duration evidence is strong: at least 10 percent of the
/// current durations lie outside the personal range.
pub open spec fn duration_strong(m: DurationBaselineMetric) -> bool {
    out_of_range_share_at_least(m, STRONG_OUT_OF_RANGE_PCT as int)
}

/// Whether the day-type evidence is strong: twice the needed samples of each kind.
pub open spec fn day_type_strong(m: DayTypeTimingMetric) -> bool {
    m.weekday_count >= 2 * MIN_WEEKDAY_SAMPLES && m.weekend_count >= 2 * MIN_WEEKEND_SAMPLES
}

/// Whether the jetlag evidence is strong: a weekend shift of at least an
/// hour in both windows.
pub open spec fn jetlag_strong(m: SocialJetlagMetric) -> bool {
    crate::metrics::magnitude_at_least(
        crate::metrics::as_int(m.current_delta_centi),
        STRONG_JETLAG_CENTI as int,
    ) && crate::metrics::magnitude_at_least(
        crate::metrics::as_int(m.prior_delta_centi),
        STRONG_JETLAG_CENTI as int,
    )
}

/// Whether the variability evidence is strong: a variability of at least 90
/// minutes in both windows. The stored variability is half the sum of the
/// two deviations, rounded down, so it is compared with 90 minutes itself.
pub open spec fn variability_strong(m: ScheduleVariabilityMetric) -> bool {
    crate::metrics::as_int(m.current_variability_centi).is_some() && crate::metrics::as_int(
        m.prior_variability_centi,
    ).is_some() && m.current_variability_centi.unwrap() * 2 >= STRONG_VARIABILITY_SUM_CENTI
        && m.prior_variability_centi.unwrap() * 2 >= STRONG_VARIABILITY_SUM_CENTI
}

/// Whether the quality evidence is strong: at least 80 rated samples.
pub open spec fn quality_strong(m: QualityFactorMetric) -> bool {
    m.rated_count >= STRONG_QUALITY_SAMPLES
}

fn share_at_least(m: &DurationBaselineMetric, pct: u32) -> (r: bool)
    ensures
        r == out_of_range_share_at_least(*m, pct as int),
{
    let share: u128 = pct as u128;
    let count: u128 = m.current_count as u128;
    assert(share * count <= 0xffff_ffff * 0xffff_ffff_ffff_ffff) by (nonlinear_arith)
        requires
            0 <= share <= 0xffff_ffff,
            0 <= count <= 0xffff_ffff_ffff_ffff,
    ;
    m.current_count > 0 && (m.out_of_range_count as u128) * 100 >= share * count
}

/// The action on personal duration warnings.
///
/// Recommended where the baseline is eligible and at least 5 percent of the
/// current durations lie outside the personal range; with high confidence
/// from 10 percent on.
pub fn recommend_duration(m: &DurationBaselineMetric) -> (r: ActionRecommendation)
    ensures
        is_action(
            r,
            DURATION_KEY@,
            DURATION_RATIONALE@,
            duration_checks(*m),
            duration_strong(*m),
        ),
        (r.status == ActionStatus::Recommended) <==> r.suppression_reasons@.len() == 0,
        !m.eligible ==> r.status == ActionStatus::Suppressed && r.confidence == Confidence::Low
            && r.suppression_reasons@.len() > 0 && r.suppression_reasons@[0]@
            == "needs at least 60 baseline sessions in prior window"@,
{
    let mut checks: Vec<Check> = Vec::new();
    checks.push(
        Check { holds: m.eligible, reason: "needs at least 60 baseline sessions in prior window" },
    );
    checks.push(
        Check {
            holds: share_at_least(m, OUT_OF_RANGE_TRIGGER_PCT),
            reason: "fewer than 5% of current sessions fall outside the personal range",
        },
    );
    let strong = share_at_least(m, STRONG_OUT_OF_RANGE_PCT);
    let r = decide(DURATION_KEY, DURATION_RATIONALE, &checks, strong);
    proof {
        assert(meanings(checks@) =~= duration_checks(*m));
        lemma_failed_texts(checks@);
        if !m.eligible {
            lemma_first_failed_text(duration_checks(*m));
            assert(texts(r.suppression_reasons@)[0] == r.suppression_reasons@[0]@);
        }
    }
    r
}

/// Where the first precondition fails, its reason is the first reason.
pub proof fn lemma_first_failed_text(checks: Seq<(bool, Seq<char>)>)
    requires
        checks.len() > 0,
        !checks[0].0,
    ensures
        failed_texts(checks).len() > 0,
        failed_texts(checks)[0] == checks[0].1,
    decreases checks.len(),
{
    reveal_with_fuel(Seq::filter, 2);
    let pred = fails_by_meaning();
    if checks.len() == 1 {
        assert(checks.drop_last() =~= Seq::<(bool, Seq<char>)>::empty());
        assert(checks.filter(pred) =~= seq![checks[0]]);
    } else {
        let rest = checks.drop_last();
        lemma_first_failed_text(rest);
        assert(rest[0] == checks[0]);
        let chosen = rest.filter(pred);
        assert(chosen.len() > 0);
        if pred(checks.last()) {
            assert(checks.filter(pred) == chosen.push(checks.last()));
        } else {
            assert(checks.filter(pred) == chosen);
        }
        assert(chosen.map_values(|c: (bool, Seq<char>)| c.1)[0] == chosen[0].1);
    }
}

/// The action on pre-filling times by kind of day.
///
/// Recommended where the current window holds at least 8 weekday and 4
/// weekend samples, the midpoint medians are stable against the prior
/// window, and recent samples do not diverge from the baseline; with high
/// confidence from twice the needed samples of each kind.
pub fn recommend_day_type(m: &DayTypeTimingMetric) -> (r: ActionRecommendation)
    ensures
        is_action(
            r,
            DAY_TYPE_KEY@,
            DAY_TYPE_RATIONALE@,
            day_type_checks(*m),
            day_type_strong(*m),
        ),
        (r.status == ActionStatus::Recommended) <==> r.suppression_reasons@.len() == 0,
{
    let mut checks: Vec<Check> = Vec::new();
    checks.push(
        Check {
            holds: m.weekday_count >= MIN_WEEKDAY_SAMPLES,
            reason: "needs at least 8 weekday sessions in current window",
        },
    );
    checks.push(
        Check {
            holds: m.weekend_count >= MIN_WEEKEND_SAMPLES,
            reason: "needs at least 4 weekend sessions in current window",
        },
    );
    checks.push(
        Check {
            holds: m.stable,
            reason: "midpoint medians are not stable against the prior window",
        },
    );
    checks.push(
        Check { holds: !m.recent_diverges, reason: "recent sessions diverge from the baseline" },
    );
    let strong = m.weekday_count >= 2 * MIN_WEEKDAY_SAMPLES && m.weekend_count >= 2
        * MIN_WEEKEND_SAMPLES;
    let r = decide(DAY_TYPE_KEY, DAY_TYPE_RATIONALE, &checks, strong);
    proof {
        assert(meanings(checks@) =~= day_type_checks(*m));
        lemma_failed_texts(checks@);
    }
    r
}

fn shift_at_least(v: Option<i64>, limit: i64) -> (r: bool)
    requires
        limit >= 0,
    ensures
        r == crate::metrics::magnitude_at_least(crate::metrics::as_int(v), limit as int),
{
    match v {
        Some(x) => x >= limit || x <= -limit,
        None => false,
    }
}

/// The action on social jetlag.
///
/// Recommended where the metric is eligible and the weekend shift is
/// sustained; with high confidence where the shift is at least an hour in
/// both windows.
pub fn recommend_social_jetlag(m: &SocialJetlagMetric) -> (r: ActionRecommendation)
    ensures
        is_action(r, JETLAG_KEY@, JETLAG_RATIONALE@, jetlag_checks(*m), jetlag_strong(*m)),
        (r.status == ActionStatus::Recommended) <==> r.suppression_reasons@.len() == 0,
{
    let mut checks: Vec<Check> = Vec::new();
    checks.push(
        Check { holds: m.eligible, reason: "needs at least 4 weekend sessions in both windows" },
    );
    checks.push(
        Check {
            holds: m.sustained,
            reason: "weekend shift is not at least 30 minutes in both windows",
        },
    );
    let strong = shift_at_least(m.current_delta_centi, STRONG_JETLAG_CENTI) && shift_at_least(
        m.prior_delta_centi,
        STRONG_JETLAG_CENTI,
    );
    let r = decide(JETLAG_KEY, JETLAG_RATIONALE, &checks, strong);
    proof {
        assert(meanings(checks@) =~= jetlag_checks(*m));
        lemma_failed_texts(checks@);
    }
    r
}

fn doubles_to(v: Option<i64>, limit: i64) -> (r: bool)
    ensures
        r == (v.is_some() && v.unwrap() * 2 >= limit),
{
    match v {
        Some(x) => x as i128 * 2 >= limit as i128,
        None => false,
    }
}

/// The action on schedule regularity.
///
/// Recommended where the metric is eligible, the variability is sustained,
/// and the current window has no high data gap; with high confidence where
/// the variability is at least 90 minutes in both windows.
pub fn recommend_regularity(m: &ScheduleVariabilityMetric) -> (r: ActionRecommendation)
    ensures
        is_action(
            r,
            REGULARITY_KEY@,
            REGULARITY_RATIONALE@,
            variability_checks(*m),
            variability_strong(*m),
        ),
        (r.status == ActionStatus::Recommended) <==> r.suppression_reasons@.len() == 0,
{
    let mut checks: Vec<Check> = Vec::new();
    checks.push(Check { holds: m.eligible, reason: "needs at least 2 sessions in both windows" });
    checks.push(
        Check {
            holds: m.sustained,
            reason: "schedule variability is not at least 60 minutes in both windows",
        },
    );
    checks.push(
        Check {
            holds: !m.high_data_gap,
            reason: "more than 30% of days are missing in current window",
        },
    );
    let strong = doubles_to(m.current_variability_centi, STRONG_VARIABILITY_SUM_CENTI)
        && doubles_to(m.prior_variability_centi, STRONG_VARIABILITY_SUM_CENTI);
    let r = decide(REGULARITY_KEY, REGULARITY_RATIONALE, &checks, strong);
    proof {
        assert(meanings(checks@) =~= variability_checks(*m));
        lemma_failed_texts(checks@);
    }
    r
}

fn every_factor_stable(m: &QualityFactorMetric) -> (r: bool)
    ensures
        r == (m.factors@.len() > 0 && all_stable(m.factors@)),
{
    if m.factors.len() == 0 {
        return false;
    }
    let mut i: usize = 0;
    while i < m.factors.len()
        invariant
            i <= m.factors.len(),
            forall|k: int| 0 <= k < i ==> (#[trigger] m.factors@[k]).stable,
        decreases m.factors.len() - i,
    {
        if !m.factors[i].stable {
            return false;
        }
        i += 1;
    }
    true
}

/// The action on explaining quality by factors.
///
/// Recommended where the current window holds at least 40 rated samples
/// with at least 3 different scores and every ranked factor is stable; with
/// high confidence from 80 rated samples on.
pub fn recommend_quality_factors(m: &QualityFactorMetric) -> (r: ActionRecommendation)
    ensures
        is_action(
            r,
            QUALITY_KEY@,
            QUALITY_RATIONALE@,
            quality_checks(*m),
            quality_strong(*m),
        ),
        (r.status == ActionStatus::Recommended) <==> r.suppression_reasons@.len() == 0,
{
    let mut checks: Vec<Check> = Vec::new();
    checks.push(
        Check {
            holds: m.rated_count >= MIN_QUALITY_SAMPLES,
            reason: "needs at least 40 quality-rated sessions in current window",
        },
    );
    checks.push(
        Check {
            holds: m.distinct_qualities >= MIN_DISTINCT_QUALITIES,
            reason: "needs at least 3 distinct quality values",
        },
    );
    checks.push(
        Check {
            holds: every_factor_stable(m),
            reason: "factor effects are not stable against the prior window",
        },
    );
    let strong = m.rated_count >= STRONG_QUALITY_SAMPLES;
    let r = decide(QUALITY_KEY, QUALITY_RATIONALE, &checks, strong);
    proof {
        assert(meanings(checks@) =~= quality_checks(*m));
        lemma_failed_texts(checks@);
    }
    r
}

} // verus!
