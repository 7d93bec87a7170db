//! Friction telemetry records and their aggregates.

use crate::calendar::Date;
use vstd::prelude::*;

verus! {

/// What a client reports of one form submission.
#[derive(Debug)]
pub struct FrictionTelemetryInput {
    pub form_time_ms: i32,
    pub error_kind: Option<String>,
    pub retry_count: i32,
    pub immediate_edit: bool,
    pub follow_up_failure: bool,
}

/// A stored friction report; `recorded_on` is the UTC date on which it was recorded.
#[derive(Debug)]
pub struct FrictionTelemetryEvent {
    pub id: i64,
    pub recorded_on: Date,
    pub form_time_ms: i32,
    pub error_kind: Option<String>,
    pub retry_count: i32,
    pub immediate_edit: bool,
    pub follow_up_failure: bool,
}

/// Figures of all submissions of a window. Averages and rates are left as a
/// total or a count beside `submit_count`; the median form time is given in
/// hundredths of a millisecond, and is 0 for a window without submissions.
#[derive(Clone, Copy, Debug)]
pub struct FrictionWindowAggregate {
    pub submit_count: usize,
    pub median_form_time_centi_ms: i64,
    pub form_time_total_ms: i64,
    pub error_count: usize,
    pub retries_total: i64,
    pub immediate_edit_count: usize,
    pub follow_up_failure_count: usize,
}

/// Figures of the submissions of a window that failed with one kind of
/// error. The average form time is `form_time_total_ms / occurrences`.
#[derive(Debug)]
pub struct FrictionErrorKindAggregate {
    pub error_kind: String,
    pub occurrences: usize,
    pub retries_total: i64,
    pub form_time_total_ms: i64,
    pub immediate_edit_count: usize,
    pub follow_up_failure_count: usize,
}

} // verus!
