//! Sleep session input and stored rows.

use crate::calendar::{Date, Time};
use crate::domain::{DomainError, DomainErrorView};
use crate::models::quality::Quality;
use vstd::prelude::*;

verus! {

/// Longest accepted time to fall asleep, in minutes.
pub const MAX_LATENCY_MIN: i32 = 180;

/// Largest accepted number of awakenings.
pub const MAX_AWAKENINGS: i32 = 10;

/// What a user enters for a sleep session. `date` is the date of waking; a
/// bed time later in the day than the wake time lies on the day before.
#[derive(Clone, Copy, Debug)]
pub struct SleepInput {
    pub date: Date,
    pub bed_time: Time,
    pub wake_time: Time,
    pub latency_min: i32,
    pub awakenings: i32,
    pub quality: Quality,
}

/// What validation says of a latency and a number of awakenings: the first
/// rule that fails, or nothing.
pub open spec fn sleep_input_verdict(latency_min: int, awakenings: int) -> Option<Seq<char>> {
    if !(0 <= latency_min <= MAX_LATENCY_MIN) {
        Some("latency_min must be between 0 and 180"@)
    } else if !(0 <= awakenings <= MAX_AWAKENINGS) {
        Some("awakenings must be between 0 and 10"@)
    } else {
        None
    }
}

impl SleepInput {
    /// Checks the ranges of latency (0 to 180 minutes) and awakenings (0 to
    /// 10). The first rule that fails is reported as `InvalidInput`.
    pub fn validate(&self) -> (r: Result<(), DomainError>)
        ensures
            match sleep_input_verdict(self.latency_min as int, self.awakenings as int) {
                Some(msg) => r.is_err() && r.unwrap_err()@ == DomainErrorView::InvalidInput(msg),
                None => r.is_ok(),
            },
    {
        if !(0 <= self.latency_min && self.latency_min <= MAX_LATENCY_MIN) {
            return Err(DomainError::invalid_input("latency_min must be between 0 and 180"));
        }
        if !(0 <= self.awakenings && self.awakenings <= MAX_AWAKENINGS) {
            return Err(DomainError::invalid_input("awakenings must be between 0 and 10"));
        }
        Ok(())
    }
}

/// A stored sleep session with its metrics.
#[derive(Clone, Copy, Debug)]
pub struct SleepSession {
    pub id: i64,
    pub date: Date,
    pub bed_time: Time,
    pub wake_time: Time,
    pub latency_min: i32,
    pub awakenings: i32,
    pub quality: i32,
}

/// One row of the daily sleep projection; `duration_min` is absent on rows
/// stored before durations were computed.
#[derive(Clone, Copy, Debug)]
pub struct SleepListItem {
    pub id: i64,
    pub date: Date,
    pub bed_time: Time,
    pub wake_time: Time,
    pub latency_min: i32,
    pub awakenings: i32,
    pub quality: i32,
    pub duration_min: Option<i32>,
}

} // verus!
