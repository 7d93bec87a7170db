//! Exercise input.

use crate::calendar::{Date, Time};
use crate::domain::{DomainError, DomainErrorView};
use crate::models::intensity::Intensity;
use vstd::prelude::*;

verus! {

/// Longest accepted exercise, in minutes: one day.
pub const MAX_EXERCISE_MIN: i32 = 1440;

/// What a user enters for an exercise event.
#[derive(Clone, Copy, Debug)]
pub struct ExerciseInput {
    pub date: Date,
    pub intensity: Intensity,
    pub start_time: Option<Time>,
    pub duration_min: Option<i32>,
}

/// The highest intensity recorded on a date, by its word.
#[derive(Debug)]
pub struct DateIntensity {
    pub date: Date,
    pub intensity: String,
}

/// Whether an optional exercise duration is acceptable: absent, or between 0
/// minutes and one day.
pub open spec fn exercise_duration_ok(duration_min: Option<i32>) -> bool {
    match duration_min {
        Some(d) => 0 <= d <= MAX_EXERCISE_MIN,
        None => true,
    }
}

impl ExerciseInput {
    /// Checks the duration, where one is given: it must lie between 0 minutes
    /// and one day, else the input is rejected with `InvalidInput`.
    pub fn validate(&self) -> (r: Result<(), DomainError>)
        ensures
            exercise_duration_ok(self.duration_min) ==> r.is_ok(),
            !exercise_duration_ok(self.duration_min) ==> r.is_err() && r.unwrap_err()@
                == DomainErrorView::InvalidInput("duration_min must be between 0 and 1440"@),
    {
        match self.duration_min {
            Some(d) => {
                if 0 <= d && d <= MAX_EXERCISE_MIN {
                    Ok(())
                } else {
                    Err(DomainError::invalid_input("duration_min must be between 0 and 1440"))
                }
            },
            None => Ok(()),
        }
    }
}

} // verus!
