//! Daily samples: the figures of one night that the metrics work on.

use crate::calendar::{clock_minutes_of, is_weekend_day, Date, Time};
use vstd::prelude::*;

verus! {

/// Minutes in a day.
pub const DAY_MINUTES: i32 = 1440;

/// One row of the daily sleep projection, as the store hands it over.
#[derive(Clone, Copy, Debug)]
pub struct DailySleepRow {
    pub wake_date: Date,
    pub bed_time: Time,
    pub wake_time: Time,
    pub duration_min: i32,
    pub quality: Option<i32>,
    pub latency_min: i32,
}

/// The figures of one night.
///
/// Clock minutes count from local midnight. `bed_relative_min` is the bed
/// time seen from the midnight of the wake date: negative where the night
/// began on the day before. `midpoint_clock_min` is the time of day half a
/// duration before waking, the half rounded down to the minute.
#[derive(Clone, Copy, Debug)]
pub struct DaySample {
    pub wake_date: Date,
    pub bed_clock_min: i32,
    pub wake_clock_min: i32,
    pub bed_relative_min: i32,
    pub wake_relative_min: i32,
    pub midpoint_clock_min: i32,
    pub duration_min: i32,
    pub quality: Option<i32>,
    pub weekend: bool,
}

/// A quality score as a sample keeps it: only where it lies in 1 to 5.
pub open spec fn kept_quality(quality: Option<i32>) -> Option<i32> {
    match quality {
        Some(q) => if 1 <= q <= 5 {
            Some(q)
        } else {
            None
        },
        None => None,
    }
}

/// Time of day half a duration before waking.
pub open spec fn midpoint_of(wake_clock_min: int, duration_min: int) -> int {
    (wake_clock_min - duration_min / 2) % (DAY_MINUTES as int)
}

/// Whether a sample is the one built from a row.
pub open spec fn is_sample_of(s: DaySample, row: DailySleepRow) -> bool {
    &&& s.wake_date@ == row.wake_date@
    &&& s.bed_clock_min == clock_minutes_of(row.bed_time@)
    &&& s.wake_clock_min == clock_minutes_of(row.wake_time@)
    &&& s.bed_relative_min == if row.bed_time@ > row.wake_time@ {
        s.bed_clock_min - DAY_MINUTES
    } else {
        s.bed_clock_min as int
    }
    &&& s.wake_relative_min == s.wake_clock_min
    &&& s.midpoint_clock_min == midpoint_of(s.wake_clock_min as int, row.duration_min as int)
    &&& s.duration_min == row.duration_min
    &&& s.quality == kept_quality(row.quality)
    &&& s.weekend == is_weekend_day(row.wake_date@)
}

/// Whether the clock figures of a sample lie on the clock face.
pub open spec fn on_clock_face(s: DaySample) -> bool {
    &&& 0 <= s.bed_clock_min < DAY_MINUTES
    &&& 0 <= s.wake_clock_min < DAY_MINUTES
    &&& 0 <= s.midpoint_clock_min < DAY_MINUTES
    &&& -DAY_MINUTES <= s.bed_relative_min < DAY_MINUTES
}

/// Builds the sample of one row.
///
/// The bed time counts as the evening before exactly when it is later in the
/// day than the wake time. The weekend flag is set for a wake date on a
/// Saturday or Sunday. A quality score outside 1 to 5 is dropped.
pub fn build_day_sample(row: &DailySleepRow) -> (s: DaySample)
    ensures
        is_sample_of(s, *row),
        on_clock_face(s),
{
    let bed_clock: i32 = row.bed_time.clock_minutes() as i32;
    let wake_clock: i32 = row.wake_time.clock_minutes() as i32;
    let bed_relative: i32 = if row.bed_time.is_after(&row.wake_time) {
        bed_clock - DAY_MINUTES
    } else {
        bed_clock
    };
    let duration: i64 = row.duration_min as i64;
    let half: i64 = if duration >= 0 {
        duration / 2
    } else {
        -((1 - duration) / 2)
    };
    let offset: i64 = wake_clock as i64 - half;
    let midpoint: i64 = if offset >= 0 {
        offset % 1440
    } else {
        let back: i64 = (-offset) % 1440;
        if back == 0 {
            0
        } else {
            1440 - back
        }
    };
    let quality = match row.quality {
        Some(q) => if 1 <= q && q <= 5 {
            Some(q)
        } else {
            None
        },
        None => None,
    };
    DaySample {
        wake_date: row.wake_date,
        bed_clock_min: bed_clock,
        wake_clock_min: wake_clock,
        bed_relative_min: bed_relative,
        wake_relative_min: wake_clock,
        midpoint_clock_min: midpoint as i32,
        duration_min: row.duration_min,
        quality,
        weekend: row.wake_date.is_weekend(),
    }
}

/// Builds one sample per row, in the order of the rows.
pub fn build_day_samples(rows: &Vec<DailySleepRow>) -> (samples: Vec<DaySample>)
    ensures
        samples@.len() == rows@.len(),
        forall|i: int|
            0 <= i < rows@.len() ==> is_sample_of(#[trigger] samples@[i], rows@[i])
                && on_clock_face(samples@[i]),
{
    let mut samples: Vec<DaySample> = Vec::new();
    let mut i: usize = 0;
    while i < rows.len()
        invariant
            i <= rows.len(),
            samples@.len() == i,
            forall|k: int|
                0 <= k < i ==> is_sample_of(#[trigger] samples@[k], rows@[k]) && on_clock_face(
                    samples@[k],
                ),
        decreases rows.len() - i,
    {
        samples.push(build_day_sample(&rows[i]));
        i += 1;
    }
    samples
}

} // verus!
