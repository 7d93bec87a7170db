//! The friction backlog: which kinds of error cost users the most time.
//!
//! Form submissions report how long the form took, whether it failed and
//! with what kind of error, how often it was retried, and whether a failure
//! followed. For every kind of error seen in the current window, the figures
//! of the current and of the prior window are compared, and a proposal is
//! made to remove that friction, with an estimate of the minutes it would
//! save per week. The proposals are ranked by that estimate.
//!
//! The estimate is `events per week * (extra form minutes + 0.75 * extra
//! retries + 1.5 * extra failure rate)`, where each "extra" is the mean of
//! the current window minus that of the prior window, or nothing where that
//! is negative. It is computed exactly and given in hundredths of a minute,
//! rounded down.

use crate::calendar::Date;
use crate::domain::{DomainError, DomainErrorView};
use crate::models::friction::{
    FrictionErrorKindAggregate, FrictionTelemetryEvent, FrictionWindowAggregate,
};
use crate::recommend::Confidence;
use crate::stats::{
    lemma_filter_next, lemma_push_value, lemma_sum_bounds, median, median_spec, sum_of,
    MAX_SAMPLES,
};
use crate::text::str_eq;
use crate::window::{is_window_pair, window_complaint, window_pair, WindowBounds, WindowPair};
use vstd::prelude::*;
use vstd::string::StringExecFns;

verus! {

/// Submissions needed in the current window for more than low confidence.
pub const MIN_SUBMITS: usize = 30;

/// Occurrences needed in each window for high confidence.
pub const HIGH_OCCURRENCES: usize = 12;

/// Occurrences needed in each window for medium confidence.
pub const MEDIUM_OCCURRENCES: usize = 4;

/// Weight of one extra retry against one extra form minute, times 60 000:
/// 0.75 minutes in milliseconds.
pub const RETRY_WEIGHT_MS: i128 = 45_000;

/// Weight of the extra failure rate against one extra form minute, times
/// 60 000: 1.5 minutes in milliseconds.
pub const FAILURE_WEIGHT_MS: i128 = 90_000;

/// What was observed of one kind of error in the two windows. Means are left
/// as a total beside the number of occurrences.
#[derive(Clone, Copy, Debug, PartialEq, Eq, Structural)]
pub struct ObservedEvidence {
    pub current_occurrences: usize,
    pub prior_occurrences: usize,
    pub current_submit_count: usize,
    pub prior_submit_count: usize,
    pub current_form_time_total_ms: i64,
    pub prior_form_time_total_ms: i64,
    pub current_retries_total: i64,
    pub prior_retries_total: i64,
    pub current_follow_up_failures: usize,
    pub prior_follow_up_failures: usize,
}

/// A proposal to remove one kind of friction.
#[derive(Debug)]
pub struct FrictionBacklogProposal {
    /// Place in the ranking, from 1; 0 before ranking.
    pub rank: usize,
    pub action_key: String,
    pub error_kind: String,
    pub observed_evidence: ObservedEvidence,
    /// Estimated minutes saved per week, in hundredths, rounded down.
    pub estimated_centi_minutes_saved_per_week: u128,
    pub confidence: Confidence,
    pub persistence_two_windows: bool,
    pub auto_promoted: bool,
}

/// The friction backlog of a window.
#[derive(Debug)]
pub struct FrictionBacklogResponse {
    pub as_of: Date,
    pub window_days: i32,
    pub minimum_sample_met: bool,
    pub current_window: WindowBounds,
    pub prior_window: WindowBounds,
    pub proposals: Vec<FrictionBacklogProposal>,
}

/// The condition "was recorded within the range".
pub open spec fn recorded_within(from: int, to: int) -> spec_fn(FrictionTelemetryEvent) -> bool {
    |e: FrictionTelemetryEvent| from <= e.recorded_on@ <= to
}

/// Whether an event failed with the given kind of error.
pub open spec fn has_kind(e: FrictionTelemetryEvent, kind: Seq<char>) -> bool {
    match e.error_kind {
        Some(k) => k@ == kind,
        None => false,
    }
}

/// The condition "was recorded within the range and failed with this kind of error".
pub open spec fn of_kind_within(kind: Seq<char>, from: int, to: int) -> spec_fn(
    FrictionTelemetryEvent,
) -> bool {
    |e: FrictionTelemetryEvent| from <= e.recorded_on@ <= to && has_kind(e, kind)
}

/// The condition "within the range, of this kind, and edited right away".
pub open spec fn edited_of_kind(kind: Seq<char>, from: int, to: int) -> spec_fn(
    FrictionTelemetryEvent,
) -> bool {
    |e: FrictionTelemetryEvent| from <= e.recorded_on@ <= to && has_kind(e, kind) && e.immediate_edit
}

/// The condition "within the range, of this kind, and followed by a failure".
pub open spec fn failed_of_kind(kind: Seq<char>, from: int, to: int) -> spec_fn(
    FrictionTelemetryEvent,
) -> bool {
    |e: FrictionTelemetryEvent|
        from <= e.recorded_on@ <= to && has_kind(e, kind) && e.follow_up_failure
}

/// The condition "within the range, with an error of any kind".
pub open spec fn errored_within(from: int, to: int) -> spec_fn(FrictionTelemetryEvent) -> bool {
    |e: FrictionTelemetryEvent| from <= e.recorded_on@ <= to && e.error_kind.is_some()
}

/// The condition "within the range, and edited right away".
pub open spec fn edited_within(from: int, to: int) -> spec_fn(FrictionTelemetryEvent) -> bool {
    |e: FrictionTelemetryEvent| from <= e.recorded_on@ <= to && e.immediate_edit
}

/// The condition "within the range, and followed by a failure".
pub open spec fn failed_within(from: int, to: int) -> spec_fn(FrictionTelemetryEvent) -> bool {
    |e: FrictionTelemetryEvent| from <= e.recorded_on@ <= to && e.follow_up_failure
}

/// The retry counts of some events, in their order.
pub open spec fn retries_of(events: Seq<FrictionTelemetryEvent>) -> Seq<i32> {
    events.map_values(|e: FrictionTelemetryEvent| e.retry_count)
}

/// The form times of some events, in their order.
pub open spec fn form_times_of(events: Seq<FrictionTelemetryEvent>) -> Seq<i32> {
    events.map_values(|e: FrictionTelemetryEvent| e.form_time_ms)
}

/// Whether figures are those of the submissions recorded from `from` to `to`.
pub open spec fn is_window_aggregate(
    a: FrictionWindowAggregate,
    events: Seq<FrictionTelemetryEvent>,
    from: int,
    to: int,
) -> bool {
    let members = events.filter(recorded_within(from, to));
    &&& a.submit_count == members.len()
    &&& a.median_form_time_centi_ms == match median_spec(form_times_of(members)) {
        Some(m) => m,
        None => 0,
    }
    &&& a.form_time_total_ms == sum_of(form_times_of(members))
    &&& a.error_count == events.filter(errored_within(from, to)).len()
    &&& a.retries_total == sum_of(retries_of(members))
    &&& a.immediate_edit_count == events.filter(edited_within(from, to)).len()
    &&& a.follow_up_failure_count == events.filter(failed_within(from, to)).len()
}

/// Whether figures are those of the submissions recorded from `from` to `to`
/// that failed with the given kind of error.
pub open spec fn is_kind_aggregate(
    a: FrictionErrorKindAggregate,
    events: Seq<FrictionTelemetryEvent>,
    kind: Seq<char>,
    from: int,
    to: int,
) -> bool {
    let members = events.filter(of_kind_within(kind, from, to));
    &&& a.error_kind@ == kind
    &&& a.occurrences == members.len()
    &&& a.retries_total == sum_of(retries_of(members))
    &&& a.form_time_total_ms == sum_of(form_times_of(members))
    &&& a.immediate_edit_count == events.filter(edited_of_kind(kind, from, to)).len()
    &&& a.follow_up_failure_count == events.filter(failed_of_kind(kind, from, to)).len()
}

fn is_within(e: &FrictionTelemetryEvent, from: &Date, to: &Date) -> (r: bool)
    ensures
        r == (from@ <= e.recorded_on@ <= to@),
{
    !e.recorded_on.is_before(from) && !to.is_before(&e.recorded_on)
}

fn is_of_kind(e: &FrictionTelemetryEvent, kind: &str) -> (r: bool)
    ensures
        r == has_kind(*e, kind@),
{
    match &e.error_kind {
        Some(k) => str_eq(k.as_str(), kind),
        None => false,
    }
}

/// Aggregates the submissions recorded from `from` to `to`, both included.
/// At most [`MAX_SAMPLES`] events may be given.
pub fn aggregate_friction_window(events: &Vec<FrictionTelemetryEvent>, from: &Date, to: &Date)
    -> (a: FrictionWindowAggregate)
    requires
        events@.len() <= MAX_SAMPLES,
    ensures
        is_window_aggregate(a, events@, from@, to@),
{
    let ghost within = recorded_within(from@, to@);
    let ghost errored = errored_within(from@, to@);
    let ghost edited = edited_within(from@, to@);
    let ghost failed = failed_within(from@, to@);
    let mut form_times: Vec<i32> = Vec::new();
    let mut form_total: i64 = 0;
    let mut retries_total: i64 = 0;
    let mut errors: usize = 0;
    let mut edits: usize = 0;
    let mut failures: usize = 0;
    let mut i: usize = 0;
    assert(events@.take(0).filter(within) =~= Seq::<FrictionTelemetryEvent>::empty());
    assert(events@.take(0).filter(errored) =~= Seq::<FrictionTelemetryEvent>::empty());
    assert(events@.take(0).filter(edited) =~= Seq::<FrictionTelemetryEvent>::empty());
    assert(events@.take(0).filter(failed) =~= Seq::<FrictionTelemetryEvent>::empty());
    assert(form_times_of(Seq::<FrictionTelemetryEvent>::empty()) =~= Seq::<i32>::empty());
    assert(retries_of(Seq::<FrictionTelemetryEvent>::empty()) =~= Seq::<i32>::empty());
    while i < events.len()
        invariant
            i <= events.len(),
            events@.len() <= MAX_SAMPLES,
            within == recorded_within(from@, to@),
            errored == errored_within(from@, to@),
            edited == edited_within(from@, to@),
            failed == failed_within(from@, to@),
            form_times@ == form_times_of(events@.take(i as int).filter(within)),
            form_times@.len() <= i,
            form_total == sum_of(form_times_of(events@.take(i as int).filter(within))),
            retries_total == sum_of(retries_of(events@.take(i as int).filter(within))),
            errors == events@.take(i as int).filter(errored).len(),
            edits == events@.take(i as int).filter(edited).len(),
            failures == events@.take(i as int).filter(failed).len(),
            errors <= i,
            edits <= i,
            failures <= i,
        decreases events.len() - i,
    {
        let e = &events[i];
        let ghost members = events@.take(i as int).filter(within);
        proof {
            lemma_filter_next(events@, within, i as int);
            lemma_filter_next(events@, errored, i as int);
            lemma_filter_next(events@, edited, i as int);
            lemma_filter_next(events@, failed, i as int);
        }
        if is_within(e, from, to) {
            proof {
                let next = members.push(*e);
                assert(within(events@[i as int]));
                assert(form_times_of(next) =~= form_times_of(members).push(e.form_time_ms));
                assert(retries_of(next) =~= retries_of(members).push(e.retry_count));
                lemma_push_value(form_times_of(members), e.form_time_ms);
                lemma_push_value(retries_of(members), e.retry_count);
                lemma_sum_bounds(form_times_of(next));
                lemma_sum_bounds(retries_of(next));
                assert(next.len() * 0x8000_0000 <= 0x100_0000 * 0x8000_0000) by (nonlinear_arith)
                    requires
                        next.len() <= 0x100_0000,
                ;
            }
            form_times.push(e.form_time_ms);
            form_total = form_total + e.form_time_ms as i64;
            retries_total = retries_total + e.retry_count as i64;
            if e.error_kind.is_some() {
                assert(errored(events@[i as int]));
                errors += 1;
            } else {
                assert(!errored(events@[i as int]));
            }
            if e.immediate_edit {
                assert(edited(events@[i as int]));
                edits += 1;
            } else {
                assert(!edited(events@[i as int]));
            }
            if e.follow_up_failure {
                assert(failed(events@[i as int]));
                failures += 1;
            } else {
                assert(!failed(events@[i as int]));
            }
        } else {
            assert(!within(events@[i as int]));
            assert(!errored(events@[i as int]));
            assert(!edited(events@[i as int]));
            assert(!failed(events@[i as int]));
        }
        i += 1;
    }
    assert(events@.take(events@.len() as int) =~= events@);
    let middle = match median(&form_times) {
        Some(m) => m,
        None => 0,
    };
    FrictionWindowAggregate {
        submit_count: form_times.len(),
        median_form_time_centi_ms: middle,
        form_time_total_ms: form_total,
        error_count: errors,
        retries_total,
        immediate_edit_count: edits,
        follow_up_failure_count: failures,
    }
}

/// Aggregates the submissions recorded from `from` to `to`, both included,
/// that failed with the given kind of error. At most [`MAX_SAMPLES`] events
/// may be given.
pub fn aggregate_error_kind(
    events: &Vec<FrictionTelemetryEvent>,
    kind: &str,
    from: &Date,
    to: &Date,
) -> (a: FrictionErrorKindAggregate)
    requires
        events@.len() <= MAX_SAMPLES,
    ensures
        is_kind_aggregate(a, events@, kind@, from@, to@),
        a.occurrences <= events@.len(),
        a.follow_up_failure_count <= a.occurrences,
        -(a.occurrences * 0x8000_0000) <= a.retries_total <= a.occurrences * 0x8000_0000,
        -(a.occurrences * 0x8000_0000) <= a.form_time_total_ms <= a.occurrences * 0x8000_0000,
{
    let ghost member = of_kind_within(kind@, from@, to@);
    let ghost edited = edited_of_kind(kind@, from@, to@);
    let ghost failed = failed_of_kind(kind@, from@, to@);
    let mut occurrences: usize = 0;
    let mut form_total: i64 = 0;
    let mut retries_total: i64 = 0;
    let mut edits: usize = 0;
    let mut failures: usize = 0;
    let mut i: usize = 0;
    assert(events@.take(0).filter(member) =~= Seq::<FrictionTelemetryEvent>::empty());
    assert(events@.take(0).filter(edited) =~= Seq::<FrictionTelemetryEvent>::empty());
    assert(events@.take(0).filter(failed) =~= Seq::<FrictionTelemetryEvent>::empty());
    assert(form_times_of(Seq::<FrictionTelemetryEvent>::empty()) =~= Seq::<i32>::empty());
    assert(retries_of(Seq::<FrictionTelemetryEvent>::empty()) =~= Seq::<i32>::empty());
    while i < events.len()
        invariant
            i <= events.len(),
            events@.len() <= MAX_SAMPLES,
            member == of_kind_within(kind@, from@, to@),
            edited == edited_of_kind(kind@, from@, to@),
            failed == failed_of_kind(kind@, from@, to@),
            occurrences == events@.take(i as int).filter(member).len(),
            occurrences <= i,
            form_total == sum_of(form_times_of(events@.take(i as int).filter(member))),
            retries_total == sum_of(retries_of(events@.take(i as int).filter(member))),
            -(occurrences * 0x8000_0000) <= form_total <= occurrences * 0x8000_0000,
            -(occurrences * 0x8000_0000) <= retries_total <= occurrences * 0x8000_0000,
            edits == events@.take(i as int).filter(edited).len(),
            failures == events@.take(i as int).filter(failed).len(),
            edits <= occurrences,
            failures <= occurrences,
        decreases events.len() - i,
    {
        let e = &events[i];
        let ghost members = events@.take(i as int).filter(member);
        proof {
            lemma_filter_next(events@, member, i as int);
            lemma_filter_next(events@, edited, i as int);
            lemma_filter_next(events@, failed, i as int);
        }
        if is_within(e, from, to) && is_of_kind(e, kind) {
            proof {
                let next = members.push(*e);
                assert(member(events@[i as int]));
                assert(form_times_of(next) =~= form_times_of(members).push(e.form_time_ms));
                assert(retries_of(next) =~= retries_of(members).push(e.retry_count));
                lemma_push_value(form_times_of(members), e.form_time_ms);
                lemma_push_value(retries_of(members), e.retry_count);
                lemma_sum_bounds(form_times_of(next));
                lemma_sum_bounds(retries_of(next));
                assert(next.len() * 0x8000_0000 <= 0x100_0000 * 0x8000_0000) by (nonlinear_arith)
                    requires
                        next.len() <= 0x100_0000,
                ;
            }
            occurrences += 1;
            form_total = form_total + e.form_time_ms as i64;
            retries_total = retries_total + e.retry_count as i64;
            if e.immediate_edit {
                assert(edited(events@[i as int]));
                edits += 1;
            } else {
                assert(!edited(events@[i as int]));
            }
            if e.follow_up_failure {
                assert(failed(events@[i as int]));
                failures += 1;
            } else {
                assert(!failed(events@[i as int]));
            }
        } else {
            assert(!member(events@[i as int]));
            assert(!edited(events@[i as int]));
            assert(!failed(events@[i as int]));
        }
        i += 1;
    }
    assert(events@.take(events@.len() as int) =~= events@);
    FrictionErrorKindAggregate {
        error_kind: String::from_str(kind),
        occurrences,
        retries_total,
        form_time_total_ms: form_total,
        immediate_edit_count: edits,
        follow_up_failure_count: failures,
    }
}

// ---------------------------------------------------------------------------
// Proposals
// ---------------------------------------------------------------------------
/// What every action key of the backlog starts with; the kind of error follows.
pub const ACTION_PREFIX: &'static str = "reduce_friction:";

/// How far the mean of the current window lies above that of the prior
/// window, times `current_n * max(prior_n, 1)`; nothing where it lies below.
/// A prior window without occurrences has mean 0.
pub open spec fn extra(current_total: int, current_n: int, prior_total: int, prior_n: int) -> int {
    let d = if prior_n == 0 {
        current_total
    } else {
        current_total * prior_n - prior_total * current_n
    };
    if d > 0 {
        d
    } else {
        0
    }
}

/// The number of prior occurrences, or 1 where there are none.
pub open spec fn prior_divisor(prior_n: int) -> int {
    if prior_n == 0 {
        1
    } else {
        prior_n
    }
}

/// The weighed extras of the evidence: extra form time in milliseconds, plus
/// 45 000 per extra retry, plus 90 000 times the extra failure rate, all
/// times `current_n * max(prior_n, 1)`.
pub open spec fn weighed_extra(ev: ObservedEvidence) -> int {
    extra(
        ev.current_form_time_total_ms as int,
        ev.current_occurrences as int,
        ev.prior_form_time_total_ms as int,
        ev.prior_occurrences as int,
    ) + RETRY_WEIGHT_MS * extra(
        ev.current_retries_total as int,
        ev.current_occurrences as int,
        ev.prior_retries_total as int,
        ev.prior_occurrences as int,
    ) + FAILURE_WEIGHT_MS * extra(
        ev.current_follow_up_failures as int,
        ev.current_occurrences as int,
        ev.prior_follow_up_failures as int,
        ev.prior_occurrences as int,
    )
}

/// Estimated minutes saved per week, in hundredths, rounded down:
/// `7 * occurrences / window_days` events per week, times the weighed extra
/// per event in minutes.
pub open spec fn benefit_centi(ev: ObservedEvidence, window_days: int) -> int {
    (7 * weighed_extra(ev)) / (600 * window_days * prior_divisor(ev.prior_occurrences as int))
}

/// The confidence in a proposal. High asks for the minimum sample, for
/// occurrences in both windows, and for at least 12 of them in each; medium
/// lowers the 12 to 4; anything else is low.
pub open spec fn confidence_spec(minimum_sample_met: bool, current_n: int, prior_n: int)
    -> Confidence {
    if minimum_sample_met && prior_n >= 1 && current_n >= HIGH_OCCURRENCES && prior_n
        >= HIGH_OCCURRENCES {
        Confidence::High
    } else if minimum_sample_met && prior_n >= 1 && current_n >= MEDIUM_OCCURRENCES && prior_n
        >= MEDIUM_OCCURRENCES {
        Confidence::Medium
    } else {
        Confidence::Low
    }
}

/// Whether the evidence is what the events show of a kind of error in the two windows.
pub open spec fn is_evidence(
    ev: ObservedEvidence,
    events: Seq<FrictionTelemetryEvent>,
    kind: Seq<char>,
    pair: WindowPair,
) -> bool {
    let now = events.filter(of_kind_within(kind, pair.current.from@, pair.current.to@));
    let before = events.filter(of_kind_within(kind, pair.prior.from@, pair.prior.to@));
    &&& ev.current_occurrences == now.len()
    &&& ev.prior_occurrences == before.len()
    &&& ev.current_submit_count == events.filter(
        recorded_within(pair.current.from@, pair.current.to@),
    ).len()
    &&& ev.prior_submit_count == events.filter(
        recorded_within(pair.prior.from@, pair.prior.to@),
    ).len()
    &&& ev.current_form_time_total_ms == sum_of(form_times_of(now))
    &&& ev.prior_form_time_total_ms == sum_of(form_times_of(before))
    &&& ev.current_retries_total == sum_of(retries_of(now))
    &&& ev.prior_retries_total == sum_of(retries_of(before))
    &&& ev.current_follow_up_failures == events.filter(
        failed_of_kind(kind, pair.current.from@, pair.current.to@),
    ).len()
    &&& ev.prior_follow_up_failures == events.filter(
        failed_of_kind(kind, pair.prior.from@, pair.prior.to@),
    ).len()
}

/// Whether a proposal is the one for its kind of error: the kind occurs in
/// the current window, the evidence is what the events show, and estimate,
/// confidence, persistence and promotion follow from the evidence.
pub open spec fn is_proposal(
    p: FrictionBacklogProposal,
    events: Seq<FrictionTelemetryEvent>,
    pair: WindowPair,
    window_days: int,
) -> bool {
    let ev = p.observed_evidence;
    &&& p.action_key@ == ACTION_PREFIX@ + p.error_kind@
    &&& is_evidence(ev, events, p.error_kind@, pair)
    &&& ev.current_occurrences >= 1
    &&& p.estimated_centi_minutes_saved_per_week == benefit_centi(ev, window_days)
    &&& p.confidence == confidence_spec(
        ev.current_submit_count >= MIN_SUBMITS,
        ev.current_occurrences as int,
        ev.prior_occurrences as int,
    )
    &&& p.persistence_two_windows == (ev.prior_occurrences >= 1)
    &&& p.auto_promoted == (p.confidence != Confidence::Low && p.persistence_two_windows)
}

/// Whether two proposals agree in everything but their rank.
pub open spec fn same_proposal(a: FrictionBacklogProposal, b: FrictionBacklogProposal) -> bool {
    &&& a.action_key@ == b.action_key@
    &&& a.error_kind@ == b.error_kind@
    &&& a.observed_evidence == b.observed_evidence
    &&& a.estimated_centi_minutes_saved_per_week == b.estimated_centi_minutes_saved_per_week
    &&& a.confidence == b.confidence
    &&& a.persistence_two_windows == b.persistence_two_windows
    &&& a.auto_promoted == b.auto_promoted
}

/// Whether the proposal at place `i` comes before the one at place `j` in
/// the ranking: its estimate is larger, or equal with `i` the earlier place.
pub open spec fn precedes(input: Seq<FrictionBacklogProposal>, i: int, j: int) -> bool {
    input[i].estimated_centi_minutes_saved_per_week
        > input[j].estimated_centi_minutes_saved_per_week || (
    input[i].estimated_centi_minutes_saved_per_week
        == input[j].estimated_centi_minutes_saved_per_week && i < j)
}

/// Whether `order` lists every place of the input once, in ranking order.
pub open spec fn is_ordering(order: Seq<int>, input: Seq<FrictionBacklogProposal>) -> bool {
    &&& order.len() == input.len()
    &&& forall|k: int| 0 <= k < order.len() ==> 0 <= #[trigger] order[k] < input.len()
    &&& forall|a: int, b: int|
        0 <= a < b < order.len() ==> precedes(input, #[trigger] order[a], #[trigger] order[b])
    &&& forall|j: int| 0 <= j < input.len() ==> #[trigger] order.contains(j)
}

/// Whether `out` is the ranking of `input`: the same proposals, by
/// decreasing estimate, equal estimates in their given order, ranked from 1.
pub open spec fn is_ranking_of(
    out: Seq<FrictionBacklogProposal>,
    input: Seq<FrictionBacklogProposal>,
    order: Seq<int>,
) -> bool {
    &&& is_ordering(order, input)
    &&& out.len() == input.len()
    &&& forall|k: int|
        0 <= k < out.len() ==> same_proposal(#[trigger] out[k], input[order[k]]) && out[k].rank
            == k + 1
}

fn confidence_of(minimum_sample_met: bool, current_n: usize, prior_n: usize) -> (c: Confidence)
    ensures
        c == confidence_spec(minimum_sample_met, current_n as int, prior_n as int),
{
    if minimum_sample_met && prior_n >= 1 && current_n >= HIGH_OCCURRENCES && prior_n
        >= HIGH_OCCURRENCES {
        Confidence::High
    } else if minimum_sample_met && prior_n >= 1 && current_n >= MEDIUM_OCCURRENCES && prior_n
        >= MEDIUM_OCCURRENCES {
        Confidence::Medium
    } else {
        Confidence::Low
    }
}

fn extra_of(current_total: i64, current_n: usize, prior_total: i64, prior_n: usize) -> (d: i128)
    requires
        current_n <= MAX_SAMPLES,
        prior_n <= MAX_SAMPLES,
        -(MAX_SAMPLES * 0x8000_0000) <= current_total <= MAX_SAMPLES * 0x8000_0000,
        -(MAX_SAMPLES * 0x8000_0000) <= prior_total <= MAX_SAMPLES * 0x8000_0000,
    ensures
        d == extra(current_total as int, current_n as int, prior_total as int, prior_n as int),
        0 <= d <= 0x1_0000_0000_0000_0000_0000,
{
    let a: i128 = current_total as i128;
    let b: i128 = prior_total as i128;
    let n: i128 = current_n as i128;
    let m: i128 = prior_n as i128;
    let diff: i128 = if prior_n == 0 {
        a
    } else {
        assert(-(0x100_0000 * 0x8000_0000 * 0x100_0000) <= a * m <= 0x100_0000 * 0x8000_0000
            * 0x100_0000) by (nonlinear_arith)
            requires
                -(0x100_0000 * 0x8000_0000) <= a <= 0x100_0000 * 0x8000_0000,
                0 <= m <= 0x100_0000,
        ;
        assert(-(0x100_0000 * 0x8000_0000 * 0x100_0000) <= b * n <= 0x100_0000 * 0x8000_0000
            * 0x100_0000) by (nonlinear_arith)
            requires
                -(0x100_0000 * 0x8000_0000) <= b <= 0x100_0000 * 0x8000_0000,
                0 <= n <= 0x100_0000,
        ;
        a * m - b * n
    };
    if diff > 0 {
        diff
    } else {
        0
    }
}

/// Whether the evidence is small enough for the estimate to be computed in
/// 128 bits: no count above [`MAX_SAMPLES`], no total beyond that many
/// values of 32 bits.
pub open spec fn evidence_in_range(ev: ObservedEvidence) -> bool {
    &&& ev.current_occurrences <= MAX_SAMPLES
    &&& ev.prior_occurrences <= MAX_SAMPLES
    &&& ev.current_follow_up_failures <= MAX_SAMPLES
    &&& ev.prior_follow_up_failures <= MAX_SAMPLES
    &&& -(MAX_SAMPLES * 0x8000_0000) <= ev.current_form_time_total_ms <= MAX_SAMPLES * 0x8000_0000
    &&& -(MAX_SAMPLES * 0x8000_0000) <= ev.prior_form_time_total_ms <= MAX_SAMPLES * 0x8000_0000
    &&& -(MAX_SAMPLES * 0x8000_0000) <= ev.current_retries_total <= MAX_SAMPLES * 0x8000_0000
    &&& -(MAX_SAMPLES * 0x8000_0000) <= ev.prior_retries_total <= MAX_SAMPLES * 0x8000_0000
}

/// Estimated minutes saved per week for the evidence, in hundredths, rounded
/// down. The window must hold 1 to 365 days, and the evidence must be in
/// range.
pub fn estimate_benefit(ev: &ObservedEvidence, window_days: i32) -> (b: u128)
    requires
        1 <= window_days <= 365,
        evidence_in_range(*ev),
    ensures
        b == benefit_centi(*ev, window_days as int),
{
    let form = extra_of(
        ev.current_form_time_total_ms,
        ev.current_occurrences,
        ev.prior_form_time_total_ms,
        ev.prior_occurrences,
    );
    let retries = extra_of(
        ev.current_retries_total,
        ev.current_occurrences,
        ev.prior_retries_total,
        ev.prior_occurrences,
    );
    let failures = extra_of(
        ev.current_follow_up_failures as i64,
        ev.current_occurrences,
        ev.prior_follow_up_failures as i64,
        ev.prior_occurrences,
    );
    let weighed: i128 = form + RETRY_WEIGHT_MS * retries + FAILURE_WEIGHT_MS * failures;
    let prior_n: i128 = if ev.prior_occurrences == 0 {
        1
    } else {
        ev.prior_occurrences as i128
    };
    assert(1 <= 600 * window_days * prior_n <= 600 * 365 * 0x100_0000) by (nonlinear_arith)
        requires
            1 <= window_days <= 365,
            1 <= prior_n <= 0x100_0000,
    ;
    let divisor: i128 = 600 * (window_days as i128) * prior_n;
    ((7 * weighed) as u128) / (divisor as u128)
}

proof fn lemma_within_limits(n: int, total: int)
    requires
        0 <= n <= MAX_SAMPLES,
        -(n * 0x8000_0000) <= total <= n * 0x8000_0000,
    ensures
        -(MAX_SAMPLES * 0x8000_0000) <= total <= MAX_SAMPLES * 0x8000_0000,
{
    assert(n * 0x8000_0000 <= 0x100_0000 * 0x8000_0000) by (nonlinear_arith)
        requires
            0 <= n <= 0x100_0000,
    ;
}

fn action_key_of(kind: &str) -> (key: String)
    ensures
        key@ == ACTION_PREFIX@ + kind@,
{
    String::from_str(ACTION_PREFIX).concat(kind)
}

/// Makes the proposal for a kind of error that occurs in the current window.
fn make_proposal(
    events: &Vec<FrictionTelemetryEvent>,
    kind: &str,
    pair: &WindowPair,
    window_days: i32,
    current_submits: usize,
    prior_submits: usize,
) -> (p: FrictionBacklogProposal)
    requires
        events@.len() <= MAX_SAMPLES,
        1 <= window_days <= 365,
        current_submits == events@.filter(
            recorded_within(pair.current.from@, pair.current.to@),
        ).len(),
        prior_submits == events@.filter(recorded_within(pair.prior.from@, pair.prior.to@)).len(),
        events@.filter(of_kind_within(kind@, pair.current.from@, pair.current.to@)).len() >= 1,
    ensures
        p.error_kind@ == kind@,
        p.rank == 0,
        is_proposal(p, events@, *pair, window_days as int),
{
    let now = aggregate_error_kind(events, kind, &pair.current.from, &pair.current.to);
    let before = aggregate_error_kind(events, kind, &pair.prior.from, &pair.prior.to);
    let ev = ObservedEvidence {
        current_occurrences: now.occurrences,
        prior_occurrences: before.occurrences,
        current_submit_count: current_submits,
        prior_submit_count: prior_submits,
        current_form_time_total_ms: now.form_time_total_ms,
        prior_form_time_total_ms: before.form_time_total_ms,
        current_retries_total: now.retries_total,
        prior_retries_total: before.retries_total,
        current_follow_up_failures: now.follow_up_failure_count,
        prior_follow_up_failures: before.follow_up_failure_count,
    };
    proof {
        lemma_within_limits(now.occurrences as int, now.form_time_total_ms as int);
        lemma_within_limits(now.occurrences as int, now.retries_total as int);
        lemma_within_limits(before.occurrences as int, before.form_time_total_ms as int);
        lemma_within_limits(before.occurrences as int, before.retries_total as int);
    }
    let estimate = estimate_benefit(&ev, window_days);
    let confidence = confidence_of(
        current_submits >= MIN_SUBMITS,
        now.occurrences,
        before.occurrences,
    );
    let persistence = before.occurrences >= 1;
    let promoted = match confidence {
        Confidence::Low => false,
        _ => persistence,
    };
    FrictionBacklogProposal {
        rank: 0,
        action_key: action_key_of(kind),
        error_kind: String::from_str(kind),
        observed_evidence: ev,
        estimated_centi_minutes_saved_per_week: estimate,
        confidence,
        persistence_two_windows: persistence,
        auto_promoted: promoted,
    }
}

fn ranked_copy(p: &FrictionBacklogProposal, rank: usize) -> (c: FrictionBacklogProposal)
    ensures
        same_proposal(c, *p),
        c.rank == rank,
{
    FrictionBacklogProposal {
        rank,
        action_key: p.action_key.clone(),
        error_kind: p.error_kind.clone(),
        observed_evidence: p.observed_evidence,
        estimated_centi_minutes_saved_per_week: p.estimated_centi_minutes_saved_per_week,
        confidence: p.confidence,
        persistence_two_windows: p.persistence_two_windows,
        auto_promoted: p.auto_promoted,
    }
}

/// The places of some proposals as mathematical numbers.
pub open spec fn places(order: Seq<usize>) -> Seq<int> {
    order.map_values(|i: usize| i as int)
}

fn ranking_order(input: &Vec<FrictionBacklogProposal>) -> (order: Vec<usize>)
    ensures
        is_ordering(places(order@), input@),
{
    let mut order: Vec<usize> = Vec::new();
    let mut i: usize = 0;
    while i < input.len()
        invariant
            i <= input.len(),
            order@.len() == i,
            forall|k: int| 0 <= k < order@.len() ==> 0 <= #[trigger] order@[k] < i,
            forall|a: int, b: int|
                0 <= a < b < order@.len() ==> precedes(
                    input@,
                    #[trigger] order@[a] as int,
                    #[trigger] order@[b] as int,
                ),
            forall|j: usize| j < i ==> #[trigger] order@.contains(j),
        decreases input.len() - i,
    {
        let estimate = input[i].estimated_centi_minutes_saved_per_week;
        let mut pos: usize = 0;
        while pos < order.len() && input[order[pos]].estimated_centi_minutes_saved_per_week
            >= estimate
            invariant
                pos <= order@.len(),
                i < input.len(),
                forall|k: int| 0 <= k < order@.len() ==> 0 <= #[trigger] order@[k] < i,
                forall|k: int|
                    0 <= k < pos ==> input@[order@[k] as int].estimated_centi_minutes_saved_per_week
                        >= estimate,
            decreases order@.len() - pos,
        {
            pos += 1;
        }
        let ghost before = order@;
        order.insert(pos, i);
        proof {
            let after = order@;
            assert(after[pos as int] == i);
            assert forall|k: int| 0 <= k < after.len() implies 0 <= #[trigger] after[k] < i + 1 by {
                if k < pos {
                    assert(after[k] == before[k]);
                } else if k > pos {
                    assert(after[k] == before[k - 1]);
                }
            }
            assert forall|a: int, b: int| 0 <= a < b < after.len() implies precedes(
                input@,
                #[trigger] after[a] as int,
                #[trigger] after[b] as int,
            ) by {
                if b < pos {
                    assert(after[a] == before[a] && after[b] == before[b]);
                } else if b == pos {
                    assert(after[a] == before[a]);
                    assert(before[a] < i);
                } else {
                    assert(after[b] == before[b - 1]);
                    if a < pos {
                        assert(after[a] == before[a]);
                    } else if a == pos {
                        assert(input@[before[pos as int] as int].estimated_centi_minutes_saved_per_week
                            < estimate);
                        if b - 1 > pos {
                            assert(precedes(input@, before[pos as int] as int, before[b - 1] as int));
                        }
                    } else {
                        assert(after[a] == before[a - 1]);
                    }
                }
            }
            assert forall|j: usize| j < i + 1 implies #[trigger] after.contains(j) by {
                if j < i {
                    assert(before.contains(j));
                    let w = choose|w: int| 0 <= w < before.len() && before[w] == j;
                    if w < pos {
                        assert(after[w] == j);
                    } else {
                        assert(after[w + 1] == j);
                    }
                } else {
                    assert(after[pos as int] == j);
                }
            }
        }
        i += 1;
    }
    proof {
        let listed = places(order@);
        assert forall|j: int| 0 <= j < input@.len() implies #[trigger] listed.contains(j) by {
            assert(order@.contains(j as usize));
            let w = choose|w: int| 0 <= w < order@.len() && order@[w] == j as usize;
            assert(listed[w] == j);
        }
    }
    order
}

/// Ranks proposals by their estimate.
///
/// The result holds the same proposals by decreasing estimate; proposals
/// with equal estimates keep their given order. Ranks count from 1. The
/// returned order names, for each place of the ranking, the place that the
/// proposal had in the input.
pub fn rank_proposals(input: &Vec<FrictionBacklogProposal>) -> (r: (
    Vec<FrictionBacklogProposal>,
    Vec<usize>,
))
    ensures
        is_ranking_of(r.0@, input@, places(r.1@)),
{
    let order = ranking_order(input);
    let mut out: Vec<FrictionBacklogProposal> = Vec::new();
    let mut k: usize = 0;
    while k < order.len()
        invariant
            k <= order.len(),
            is_ordering(places(order@), input@),
            out@.len() == k,
            forall|m: int|
                0 <= m < k ==> same_proposal(#[trigger] out@[m], input@[places(order@)[m]])
                    && out@[m].rank == m + 1,
        decreases order.len() - k,
    {
        assert(0 <= places(order@)[k as int] < input@.len());
        out.push(ranked_copy(&input[order[k]], k + 1));
        k += 1;
    }
    (out, order)
}

// ---------------------------------------------------------------------------
// The backlog
// ---------------------------------------------------------------------------
/// Whether one of the proposals is for the given kind of error.
pub open spec fn proposes(proposals: Seq<FrictionBacklogProposal>, kind: Seq<char>) -> bool {
    exists|k: int| 0 <= k < proposals.len() && (#[trigger] proposals[k]).error_kind@ == kind
}

/// Whether an event calls for a proposal: it was recorded in the range and
/// failed with some kind of error.
pub open spec fn calls_for_proposal(e: FrictionTelemetryEvent, from: int, to: int) -> bool {
    from <= e.recorded_on@ <= to && e.error_kind.is_some()
}

/// The kinds of error that the first `n` events show within the range, each
/// once, in the order in which they first occur.
pub open spec fn kinds_in_order(events: Seq<FrictionTelemetryEvent>, n: int, from: int, to: int)
    -> Seq<Seq<char>>
    decreases n,
{
    if n <= 0 {
        Seq::empty()
    } else {
        let before = kinds_in_order(events, n - 1, from, to);
        let e = events[n - 1];
        if calls_for_proposal(e, from, to) && !before.contains(e.error_kind.unwrap()@) {
            before.push(e.error_kind.unwrap()@)
        } else {
            before
        }
    }
}

/// Whether the proposals are the backlog of the events for a pair of
/// windows: one proposal for every kind of error that occurs in the current
/// window and for no other, each the proposal for its kind, by decreasing
/// estimate, ranked from 1. Proposals with equal estimates come in the order
/// in which their kinds first occur among the events.
pub open spec fn are_backlog_proposals(
    proposals: Seq<FrictionBacklogProposal>,
    events: Seq<FrictionTelemetryEvent>,
    pair: WindowPair,
    window_days: int,
) -> bool {
    &&& forall|k: int|
        0 <= k < proposals.len() ==> is_proposal(#[trigger] proposals[k], events, pair, window_days)
            && proposals[k].rank == k + 1
    &&& forall|a: int, b: int|
        0 <= a < b < proposals.len() ==> (
        #[trigger] proposals[a]).estimated_centi_minutes_saved_per_week >= (
        #[trigger] proposals[b]).estimated_centi_minutes_saved_per_week
    &&& forall|a: int, b: int|
        0 <= a < b < proposals.len() ==> (#[trigger] proposals[a]).error_kind@ != (
        #[trigger] proposals[b]).error_kind@
    &&& forall|j: int|
        0 <= j < events.len() && calls_for_proposal(
            #[trigger] events[j],
            pair.current.from@,
            pair.current.to@,
        ) ==> proposes(proposals, events[j].error_kind.unwrap()@)
    &&& forall|a: int, b: int|
        0 <= a < b < proposals.len() && (
        #[trigger] proposals[a]).estimated_centi_minutes_saved_per_week == (
        #[trigger] proposals[b]).estimated_centi_minutes_saved_per_week ==> first_seen(
            events,
            pair,
            proposals[a].error_kind@,
        ) < first_seen(events, pair, proposals[b].error_kind@)
}

/// Place of a kind of error among the kinds of the current window, in the
/// order in which they first occur.
pub open spec fn first_seen(events: Seq<FrictionTelemetryEvent>, pair: WindowPair, kind: Seq<char>)
    -> int {
    kinds_in_order(events, events.len() as int, pair.current.from@, pair.current.to@).index_of(
        kind,
    )
}

/// Whether a response is the backlog of the events, looking back
/// `window_days` days from `as_of`.
pub open spec fn is_backlog(
    resp: FrictionBacklogResponse,
    as_of: int,
    window_days: int,
    events: Seq<FrictionTelemetryEvent>,
) -> bool {
    let pair = WindowPair { current: resp.current_window, prior: resp.prior_window };
    &&& resp.as_of@ == as_of
    &&& resp.window_days == window_days
    &&& is_window_pair(pair, as_of, window_days)
    &&& resp.minimum_sample_met == (events.filter(
        recorded_within(pair.current.from@, pair.current.to@),
    ).len() >= MIN_SUBMITS)
    &&& are_backlog_proposals(resp.proposals@, events, pair, window_days)
}

/// A sequence that holds an element meeting a condition has a non-empty selection.
proof fn lemma_filter_nonempty<A>(s: Seq<A>, pred: spec_fn(A) -> bool, i: int)
    requires
        0 <= i < s.len(),
        pred(s[i]),
    ensures
        s.filter(pred).len() >= 1,
    decreases s.len(),
{
    reveal_with_fuel(Seq::filter, 2);
    if i == s.len() - 1 {
        assert(s.filter(pred) == s.drop_last().filter(pred).push(s.last()));
    } else {
        lemma_filter_nonempty(s.drop_last(), pred, i);
    }
}

fn knows_kind(proposals: &Vec<FrictionBacklogProposal>, kind: &str) -> (r: bool)
    ensures
        r == proposes(proposals@, kind@),
{
    let mut k: usize = 0;
    while k < proposals.len()
        invariant
            k <= proposals.len(),
            forall|m: int| 0 <= m < k ==> (#[trigger] proposals@[m]).error_kind@ != kind@,
        decreases proposals.len() - k,
    {
        if str_eq(proposals[k].error_kind.as_str(), kind) {
            assert(proposals@[k as int].error_kind@ == kind@);
            return true;
        }
        k += 1;
    }
    false
}

/// Whether the proposals are those of the first `n` events: one for every
/// kind of error that occurs among them in the current window and for no
/// other, each the proposal for its kind, not yet ranked.
spec fn are_unranked_proposals(
    proposals: Seq<FrictionBacklogProposal>,
    events: Seq<FrictionTelemetryEvent>,
    n: int,
    pair: WindowPair,
    window_days: int,
) -> bool {
    &&& forall|k: int|
        0 <= k < proposals.len() ==> is_proposal(#[trigger] proposals[k], events, pair, window_days)
    &&& forall|a: int, b: int|
        0 <= a < b < proposals.len() ==> (#[trigger] proposals[a]).error_kind@ != (
        #[trigger] proposals[b]).error_kind@
    &&& forall|j: int|
        0 <= j < n && calls_for_proposal(
            #[trigger] events[j],
            pair.current.from@,
            pair.current.to@,
        ) ==> proposes(proposals, events[j].error_kind.unwrap()@)
    &&& kinds_of(proposals) == kinds_in_order(events, n, pair.current.from@, pair.current.to@)
}

/// The kinds of error of some proposals, in their order.
spec fn kinds_of(proposals: Seq<FrictionBacklogProposal>) -> Seq<Seq<char>> {
    proposals.map_values(|p: FrictionBacklogProposal| p.error_kind@)
}

/// In a sequence without repeats, every element is found at its own place.
proof fn lemma_index_of_distinct<A>(s: Seq<A>, i: int)
    requires
        0 <= i < s.len(),
        forall|a: int, b: int| 0 <= a < b < s.len() ==> s[a] != s[b],
    ensures
        s.index_of(s[i]) == i,
{
    let found = s.index_of(s[i]);
    assert(0 <= i < s.len() && s[i] == s[i]);
    assert(0 <= found < s.len() && s[found] == s[i]);
    if found < i {
        assert(s[found] != s[i]);
    } else if found > i {
        assert(s[i] != s[found]);
    }
}

fn collect_proposals(
    events: &Vec<FrictionTelemetryEvent>,
    pair: &WindowPair,
    window_days: i32,
    current_submits: usize,
    prior_submits: usize,
) -> (proposals: Vec<FrictionBacklogProposal>)
    requires
        events@.len() <= MAX_SAMPLES,
        1 <= window_days <= 365,
        current_submits == events@.filter(
            recorded_within(pair.current.from@, pair.current.to@),
        ).len(),
        prior_submits == events@.filter(recorded_within(pair.prior.from@, pair.prior.to@)).len(),
    ensures
        are_unranked_proposals(
            proposals@,
            events@,
            events@.len() as int,
            *pair,
            window_days as int,
        ),
{
    let mut proposals: Vec<FrictionBacklogProposal> = Vec::new();
    let mut i: usize = 0;
    assert(kinds_of(proposals@) =~= kinds_in_order(
        events@,
        0,
        pair.current.from@,
        pair.current.to@,
    ));
    while i < events.len()
        invariant
            i <= events.len(),
            events@.len() <= MAX_SAMPLES,
            1 <= window_days <= 365,
            current_submits == events@.filter(
                recorded_within(pair.current.from@, pair.current.to@),
            ).len(),
            prior_submits == events@.filter(
                recorded_within(pair.prior.from@, pair.prior.to@),
            ).len(),
            are_unranked_proposals(proposals@, events@, i as int, *pair, window_days as int),
        decreases events.len() - i,
    {
        let e = &events[i];
        let ghost before = proposals@;
        let ghost seen = kinds_in_order(events@, i as int, pair.current.from@, pair.current.to@);
        proof {
            assert(kinds_of(before) == seen);
            assert forall|kind: Seq<char>| proposes(before, kind) == seen.contains(kind) by {
                if proposes(before, kind) {
                    let w = choose|w: int|
                        0 <= w < before.len() && (#[trigger] before[w]).error_kind@ == kind;
                    assert(seen[w] == kind);
                }
                if seen.contains(kind) {
                    let w = choose|w: int| 0 <= w < seen.len() && seen[w] == kind;
                    assert(before[w].error_kind@ == kind);
                }
            }
        }
        if is_within(e, &pair.current.from, &pair.current.to) {
            match &e.error_kind {
                Some(kind) => {
                    if !knows_kind(&proposals, kind.as_str()) {
                        proof {
                            lemma_filter_nonempty(
                                events@,
                                of_kind_within(kind@, pair.current.from@, pair.current.to@),
                                i as int,
                            );
                        }
                        let p = make_proposal(
                            events,
                            kind.as_str(),
                            pair,
                            window_days,
                            current_submits,
                            prior_submits,
                        );
                        proposals.push(p);
                        proof {
                            let after = proposals@;
                            let last = after.len() - 1;
                            assert(after[last].error_kind@ == kind@);
                            assert(kinds_of(after) =~= kinds_of(before).push(kind@));
                            assert forall|j: int|
                                0 <= j < i + 1 && calls_for_proposal(
                                    #[trigger] events@[j],
                                    pair.current.from@,
                                    pair.current.to@,
                                ) implies proposes(after, events@[j].error_kind.unwrap()@) by {
                                if j < i {
                                    assert(proposes(before, events@[j].error_kind.unwrap()@));
                                    let w = choose|w: int|
                                        0 <= w < before.len() && (#[trigger] before[w]).error_kind@
                                            == events@[j].error_kind.unwrap()@;
                                    assert(after[w] == before[w]);
                                } else {
                                    assert(after[last].error_kind@ == events@[j].error_kind.unwrap()@);
                                }
                            }
                            assert forall|a: int, b: int| 0 <= a < b < after.len() implies (
                            #[trigger] after[a]).error_kind@ != (#[trigger] after[b]).error_kind@ by {
                                assert(after[a] == before[a]);
                                if b < last {
                                    assert(after[b] == before[b]);
                                }
                            }
                        }
                    }
                },
                None => {},
            }
        }
        i += 1;
    }
    proposals
}

/// Builds the friction backlog.
///
/// The windows are the `window_days` days that end on `as_of` and the
/// `window_days` days before them. The minimum sample is met with at least
/// 30 submissions in the current window. Every kind of error that occurs in
/// the current window gets one proposal; the proposals are ranked by their
/// estimate. Fails with `InvalidInput` where `window_days` is not between 1
/// and 365, or where the prior window would start before the calendar. At
/// most [`MAX_SAMPLES`] events may be given.
pub fn friction_backlog(as_of: Date, window_days: i32, events: &Vec<FrictionTelemetryEvent>) -> (r:
    Result<FrictionBacklogResponse, DomainError>)
    requires
        events@.len() <= MAX_SAMPLES,
    ensures
        match window_complaint(as_of@, window_days as int) {
            Some(msg) => r.is_err() && r.unwrap_err()@ == DomainErrorView::InvalidInput(msg),
            None => r.is_ok() && is_backlog(r.unwrap(), as_of@, window_days as int, events@),
        },
{
    let pair = match window_pair(as_of, window_days) {
        Ok(p) => p,
        Err(e) => {
            return Err(e);
        },
    };
    let now = aggregate_friction_window(events, &pair.current.from, &pair.current.to);
    let before = aggregate_friction_window(events, &pair.prior.from, &pair.prior.to);
    let unranked = collect_proposals(
        events,
        &pair,
        window_days,
        now.submit_count,
        before.submit_count,
    );
    let (ranked, order) = rank_proposals(&unranked);
    proof {
        let listed = places(order@);
        let out = ranked@;
        let input = unranked@;
        assert forall|k: int| 0 <= k < out.len() implies is_proposal(
            #[trigger] out[k],
            events@,
            pair,
            window_days as int,
        ) && out[k].rank == k + 1 by {
            assert(same_proposal(out[k], input[listed[k]]));
            assert(is_proposal(input[listed[k]], events@, pair, window_days as int));
        }
        assert forall|a: int, b: int| 0 <= a < b < out.len() implies (
        #[trigger] out[a]).estimated_centi_minutes_saved_per_week >= (
        #[trigger] out[b]).estimated_centi_minutes_saved_per_week && out[a].error_kind@
            != out[b].error_kind@ by {
            assert(precedes(input, listed[a], listed[b]));
            assert(same_proposal(out[a], input[listed[a]]));
            assert(same_proposal(out[b], input[listed[b]]));
            if listed[a] < listed[b] {
                assert(input[listed[a]].error_kind@ != input[listed[b]].error_kind@);
            } else {
                assert(input[listed[b]].error_kind@ != input[listed[a]].error_kind@);
            }
        }
        let kinds = kinds_in_order(
            events@,
            events@.len() as int,
            pair.current.from@,
            pair.current.to@,
        );
        assert(kinds == kinds_of(input));
        assert forall|a: int, b: int| 0 <= a < b < kinds.len() implies kinds[a] != kinds[b] by {
            assert(input[a].error_kind@ != input[b].error_kind@);
        }
        assert forall|a: int, b: int|
            0 <= a < b < out.len() && (#[trigger] out[a]).estimated_centi_minutes_saved_per_week
                == (#[trigger] out[b]).estimated_centi_minutes_saved_per_week implies first_seen(
            events@,
            pair,
            out[a].error_kind@,
        ) < first_seen(events@, pair, out[b].error_kind@) by {
            assert(precedes(input, listed[a], listed[b]));
            assert(same_proposal(out[a], input[listed[a]]));
            assert(same_proposal(out[b], input[listed[b]]));
            assert(kinds[listed[a]] == out[a].error_kind@);
            assert(kinds[listed[b]] == out[b].error_kind@);
            lemma_index_of_distinct(kinds, listed[a]);
            lemma_index_of_distinct(kinds, listed[b]);
        }
        assert forall|j: int|
            0 <= j < events@.len() && calls_for_proposal(
                #[trigger] events@[j],
                pair.current.from@,
                pair.current.to@,
            ) implies proposes(out, events@[j].error_kind.unwrap()@) by {
            let kind = events@[j].error_kind.unwrap()@;
            assert(proposes(input, kind));
            let w = choose|w: int| 0 <= w < input.len() && (#[trigger] input[w]).error_kind@ == kind;
            assert(listed.contains(w));
            let k = choose|k: int| 0 <= k < listed.len() && listed[k] == w;
            assert(same_proposal(out[k], input[listed[k]]));
        }
    }
    Ok(
        FrictionBacklogResponse {
            as_of,
            window_days,
            minimum_sample_met: now.submit_count >= MIN_SUBMITS,
            current_window: pair.current,
            prior_window: pair.prior,
            proposals: ranked,
        },
    )
}

} // verus!
