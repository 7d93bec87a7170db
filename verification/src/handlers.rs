//! What a handler decides before it turns to the store.

use crate::error::{ApiError, ApiErrorView};
use crate::models::exercise::{exercise_duration_ok, ExerciseInput};
use crate::models::note::{note_too_long, NoteInput};
use crate::models::sleep::{sleep_input_verdict, SleepInput};
use crate::calendar::{whole_secs, MIN_DAY};
use crate::time::{
    bed_day_of, compute_duration, compute_duration_spec, local_seconds, resolve_local_spec, Zone,
};
use vstd::prelude::*;

verus! {

/// What preparing a sleep session for the store gives: the duration to
/// store, or the rejection. The input is validated first; the duration is
/// computed only for valid input.
pub open spec fn prepared_sleep(input: SleepInput, zone: Seq<char>) -> Result<int, ApiErrorView> {
    match sleep_input_verdict(input.latency_min as int, input.awakenings as int) {
        Some(msg) => Err(ApiErrorView::InvalidInput(msg)),
        None => match compute_duration_spec(
            zone,
            input.date@,
            input.bed_time@,
            input.wake_time@,
        ) {
            Ok(minutes) => Ok(minutes),
            Err(e) => Err(ApiErrorView::InvalidInput(e.message())),
        },
    }
}

/// A sleep session made ready for the store: the duration to store or the
/// rejection, and whether a local time had to be read as UTC on the way.
#[derive(Debug)]
pub struct PreparedSleep {
    pub outcome: Result<i32, ApiError>,
    pub bed_fell_back: bool,
    pub wake_fell_back: bool,
}

/// Whether the outcome of a preparation is the expected one.
pub open spec fn is_prepared(r: Result<i32, ApiError>, expected: Result<int, ApiErrorView>) -> bool {
    match expected {
        Ok(minutes) => r.is_ok() && r.unwrap() == minutes,
        Err(e) => r.is_err() && r.unwrap_err()@ == e,
    }
}

/// Validates a sleep session, computes the duration to store with it, and
/// reports the fallbacks taken while the two local times were resolved.
/// Input that fails validation has no times resolved, so no fallback is
/// reported for it.
pub fn prepare_sleep(input: &SleepInput, tz: &Zone) -> (r: PreparedSleep)
    ensures
        is_prepared(r.outcome, prepared_sleep(*input, tz@)),
        sleep_input_verdict(input.latency_min as int, input.awakenings as int).is_some()
            ==> !r.bed_fell_back && !r.wake_fell_back,
        sleep_input_verdict(input.latency_min as int, input.awakenings as int).is_none()
            && bed_day_of(input.date@, input.bed_time@, input.wake_time@) >= MIN_DAY ==> {
            &&& r.bed_fell_back == resolve_local_spec(
                tz@,
                local_seconds(
                    bed_day_of(input.date@, input.bed_time@, input.wake_time@),
                    whole_secs(input.bed_time@),
                ),
            ).1
            &&& r.wake_fell_back == resolve_local_spec(
                tz@,
                local_seconds(input.date@, whole_secs(input.wake_time@)),
            ).1
        },
{
    match input.validate() {
        Ok(()) => {},
        Err(e) => {
            return PreparedSleep {
                outcome: Err(ApiError::from_domain(&e)),
                bed_fell_back: false,
                wake_fell_back: false,
            };
        },
    }
    let report = compute_duration(input.date, input.bed_time, input.wake_time, tz);
    let outcome = match report.outcome {
        Ok(minutes) => Ok(minutes),
        Err(e) => Err(ApiError::from_domain(&e)),
    };
    PreparedSleep {
        outcome,
        bed_fell_back: report.bed_fell_back,
        wake_fell_back: report.wake_fell_back,
    }
}

/// Validates a sleep session and computes the duration to store with it.
/// Used for creating a session and for updating one.
pub fn create_sleep(input: &SleepInput, tz: &Zone) -> (r: Result<i32, ApiError>)
    ensures
        is_prepared(r, prepared_sleep(*input, tz@)),
{
    prepare_sleep(input, tz).outcome
}

/// Validates a sleep session and computes the duration to store with it, as
/// [`create_sleep`] does.
pub fn update_sleep(input: &SleepInput, tz: &Zone) -> (r: Result<i32, ApiError>)
    ensures
        match prepared_sleep(*input, tz@) {
            Ok(minutes) => r.is_ok() && r.unwrap() == minutes,
            Err(e) => r.is_err() && r.unwrap_err()@ == e,
        },
{
    create_sleep(input, tz)
}

/// Validates an exercise event before it is stored.
pub fn create_exercise(input: &ExerciseInput) -> (r: Result<(), ApiError>)
    ensures
        exercise_duration_ok(input.duration_min) ==> r.is_ok(),
        !exercise_duration_ok(input.duration_min) ==> r.is_err() && r.unwrap_err()@
            == ApiErrorView::InvalidInput("duration_min must be between 0 and 1440"@),
{
    match input.validate() {
        Ok(()) => Ok(()),
        Err(e) => Err(ApiError::from_domain(&e)),
    }
}

/// Validates a note before it is stored.
pub fn create_note(input: &NoteInput) -> (r: Result<(), ApiError>)
    ensures
        !note_too_long(input.body) ==> r.is_ok(),
        note_too_long(input.body) ==> r.is_err() && r.unwrap_err()@ == ApiErrorView::InvalidInput(
            "body too long"@,
        ),
{
    match input.validate() {
        Ok(()) => Ok(()),
        Err(e) => Err(ApiError::from_domain(&e)),
    }
}

} // verus!
