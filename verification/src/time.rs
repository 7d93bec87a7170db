//! Daylight-saving-aware resolution of local times and sleep duration.
//!
//! A sleep session is keyed by the date of waking. The bed date is the wake
//! date, or the day before where the bed time is later in the day than the
//! wake time. Each of the two local times is resolved to an instant in the
//! given zone; the duration is the whole minutes between the two instants.
//!
//! A zone is held by its name in the time zone database. What a zone says of
//! a local second comes from `chrono-tz` and is named by [`zone_lookup`];
//! everything around that call is computed and proved here.

use crate::calendar::{
    day_in_range, nanos_per_day, sub_nanos, whole_secs, Date, Time, MIN_DAY, NANOS_PER_SEC,
    UNIX_EPOCH_DAY,
};
use crate::domain::{DomainError, DomainErrorView};
use chrono::TimeZone;
use vstd::prelude::*;
use vstd::string::StringExecFns;

verus! {

/// Minutes scanned forward to bridge a spring-forward gap.
pub const MAX_DST_GAP_MINUTES: u32 = 180;

/// Nanoseconds in a minute.
pub const NANOS_PER_MINUTE: u64 = 60_000_000_000;

/// First local second of the calendar: midnight of its first day.
pub const MIN_LOCAL_SECS: i64 = -8_334_601_228_800;

/// Last local second of the calendar: the last second of its last day.
pub const MAX_LOCAL_SECS: i64 = 8_210_266_876_799;

/// What a zone says of a local wall-clock second.
#[derive(Clone, Copy, Debug, PartialEq, Eq, Structural)]
pub enum LocalLookup {
    /// The local time is one instant, given in seconds since the Unix epoch.
    Single(i64),
    /// The local time occurs twice (clocks were set back): the two instants.
    Ambiguous(i64, i64),
    /// The local time does not occur (clocks were set forward), or cannot be represented.
    Missing,
}

/// Whether `chrono-tz` knows a zone of this name.
pub uninterp spec fn known_zone(name: Seq<char>) -> bool;

/// What `chrono-tz` says of a local second in the zone of the given name.
/// The local second counts from 1970-01-01 00:00:00 on the wall clock.
pub uninterp spec fn zone_lookup(zone: Seq<char>, local_secs: int) -> LocalLookup;

/// `FromStr::from_str` of `chrono_tz::Tz`, asked only whether it succeeds.
/// The contract only names the result.
#[verifier::external_body]
fn is_zone_name(name: &str) -> (r: bool)
    ensures
        r == known_zone(name@),
{
    name.parse::<chrono_tz::Tz>().is_ok()
}

/// `Tz::name` of `chrono_tz::Asia::Tokyo`. The contract says what the table
/// of zones in `chrono-tz` shows: the name is `Asia/Tokyo`, and it is the
/// name of a zone.
#[verifier::external_body]
fn tokyo_name() -> (name: &'static str)
    ensures
        name@ == "Asia/Tokyo"@,
        known_zone(name@),
{
    chrono_tz::Asia::Tokyo.name()
}

/// `TimeZone::from_local_datetime` of the `chrono_tz::Tz` with the given
/// name, on the naive date and time that lies `local_secs` seconds after
/// 1970-01-01 00:00:00, each instant handed back as its `timestamp`. The
/// contract only names the result; the name must be known and the second in
/// bounds, so that neither conversion fails.
#[verifier::external_body]
fn lookup_local(zone: &str, local_secs: i64) -> (r: LocalLookup)
    requires
        known_zone(zone@),
        MIN_LOCAL_SECS <= local_secs <= MAX_LOCAL_SECS,
    ensures
        r == zone_lookup(zone@, local_secs as int),
{
    let tz = zone.parse::<chrono_tz::Tz>().unwrap();
    let naive = chrono::DateTime::from_timestamp(local_secs, 0).unwrap().naive_utc();
    match tz.from_local_datetime(&naive) {
        chrono::LocalResult::Single(dt) => LocalLookup::Single(dt.timestamp()),
        chrono::LocalResult::Ambiguous(a, b) => LocalLookup::Ambiguous(a.timestamp(), b.timestamp()),
        chrono::LocalResult::None => LocalLookup::Missing,
    }
}

/// A time zone, by its name in the time zone database. Every value names a
/// zone that `chrono-tz` knows.
#[derive(Debug)]
pub struct Zone {
    name: String,
}

impl View for Zone {
    type V = Seq<char>;

    /// The name of the zone.
    closed spec fn view(&self) -> Seq<char> {
        self.name@
    }
}

impl Zone {
    #[verifier::type_invariant]
    closed spec fn inv(self) -> bool {
        known_zone(self.name@)
    }

    /// The zone of a name such as `Europe/Berlin`; `None` where no zone has
    /// this name.
    pub fn parse(name: &str) -> (r: Option<Zone>)
        ensures
            r.is_some() == known_zone(name@),
            r.is_some() ==> r.unwrap()@ == name@,
    {
        if is_zone_name(name) {
            Some(Zone { name: String::from_str(name) })
        } else {
            None
        }
    }

    /// The zone `Asia/Tokyo`.
    pub fn tokyo() -> (z: Zone)
        ensures
            z@ == "Asia/Tokyo"@,
    {
        Zone { name: String::from_str(tokyo_name()) }
    }

    /// The name of the zone.
    pub fn name(&self) -> (name: &str)
        ensures
            name@ == self@,
            known_zone(self@),
    {
        proof {
            use_type_invariant(self);
        }
        self.name.as_str()
    }

    /// A copy of the zone.
    pub fn duplicate(&self) -> (z: Zone)
        ensures
            z@ == self@,
    {
        proof {
            use_type_invariant(self);
        }
        Zone { name: self.name.clone() }
    }
}

impl LocalLookup {
    /// The instant a lookup settles on: the only one, or the earlier of two.
    pub open spec fn earliest_spec(self) -> Option<i64> {
        match self {
            LocalLookup::Single(at) => Some(at),
            LocalLookup::Ambiguous(one, other) => if one <= other {
                Some(one)
            } else {
                Some(other)
            },
            LocalLookup::Missing => None,
        }
    }

    /// The instant a lookup settles on: the only one, or the earlier of two;
    /// `None` where the local time does not occur.
    pub fn earliest(&self) -> (r: Option<i64>)
        ensures
            r == self.earliest_spec(),
    {
        match self {
            LocalLookup::Single(at) => Some(*at),
            LocalLookup::Ambiguous(one, other) => if *one <= *other {
                Some(*one)
            } else {
                Some(*other)
            },
            LocalLookup::Missing => None,
        }
    }
}

/// A point in time: seconds since the Unix epoch and nanoseconds within the second.
#[derive(Clone, Copy, Debug, PartialEq, Eq, Structural)]
pub struct Instant {
    pub secs: i64,
    pub nanos: u32,
}

/// A resolved local time, and whether resolution had to fall back on reading
/// the wall clock as UTC.
#[derive(Clone, Copy, Debug, PartialEq, Eq, Structural)]
pub struct Resolution {
    pub instant: Instant,
    pub fell_back: bool,
}

/// Outcome of a duration computation, with the fallbacks taken on the way.
#[derive(Debug)]
pub struct DurationReport {
    /// The duration in minutes, or why there is none.
    pub outcome: Result<i32, DomainError>,
    /// The bed time was resolved by reading the wall clock as UTC.
    pub bed_fell_back: bool,
    /// The wake time was resolved by reading the wall clock as UTC.
    pub wake_fell_back: bool,
}

/// Local second count of a day number and a second of the day.
pub open spec fn local_seconds(days: int, secs: int) -> int {
    (days - UNIX_EPOCH_DAY) * 86_400 + secs
}

/// Instant found by trying `start`, `start` plus one minute, and so on, from
/// the `k`-th minute up to (not including) the 180th, and whether none was
/// found. The first minute at which the zone knows the local time decides;
/// where none does, the wall clock is read as UTC. The scan does not leave
/// the calendar: it ends, as if nothing had been found, at the first minute
/// that lies after the last second of the calendar.
pub open spec fn scan_forward(zone: Seq<char>, start: int, k: nat) -> (int, bool)
    decreases MAX_DST_GAP_MINUTES - k,
{
    if k >= MAX_DST_GAP_MINUTES || start + 60 * k > MAX_LOCAL_SECS {
        (start, true)
    } else {
        match zone_lookup(zone, start + 60 * k).earliest_spec() {
            Some(at) => (at as int, false),
            None => scan_forward(zone, start, k + 1),
        }
    }
}

/// Seconds of the instant that a local second resolves to, and whether the
/// fallback was taken.
pub open spec fn resolve_local_spec(zone: Seq<char>, local_secs: int) -> (int, bool) {
    scan_forward(zone, local_secs, 0)
}

/// Nanoseconds from `bed` to `wake`.
pub open spec fn elapsed_nanos(bed: Instant, wake: Instant) -> int {
    (wake.secs - bed.secs) * NANOS_PER_SEC + (wake.nanos - bed.nanos)
}

/// Whole minutes of an elapsed time, or the reason it is no duration.
pub open spec fn duration_outcome(elapsed: int) -> Result<int, DomainErrorView> {
    if elapsed < NANOS_PER_MINUTE {
        Err(DomainErrorView::InvalidInput("Duration must be positive"@))
    } else if elapsed / (NANOS_PER_MINUTE as int) > i32::MAX {
        Err(DomainErrorView::InvalidInput("Duration too large"@))
    } else {
        Ok(elapsed / (NANOS_PER_MINUTE as int))
    }
}

/// Day number of going to bed: the wake day, or the day before where the bed
/// time is later in the day than the wake time.
pub open spec fn bed_day_of(wake_day: int, bed: int, wake: int) -> int {
    if bed > wake {
        wake_day - 1
    } else {
        wake_day
    }
}

/// Duration in minutes of the session that ends on day `wake_day`, from the
/// time of day `bed` to the time of day `wake` (both in nanoseconds since
/// midnight), or the reason there is none.
pub open spec fn compute_duration_spec(zone: Seq<char>, wake_day: int, bed: int, wake: int)
    -> Result<int, DomainErrorView> {
    let bed_day = bed_day_of(wake_day, bed, wake);
    if bed_day < MIN_DAY {
        Err(DomainErrorView::InvalidInput("invalid date (underflow)"@))
    } else {
        let bed_at = resolve_local_spec(zone, local_seconds(bed_day, whole_secs(bed))).0;
        let wake_at = resolve_local_spec(zone, local_seconds(wake_day, whole_secs(wake))).0;
        duration_outcome(
            (wake_at - bed_at) * NANOS_PER_SEC + (sub_nanos(wake) - sub_nanos(bed)),
        )
    }
}

/// Whether a duration result is the expected one: the same minutes, or an
/// error with the same meaning.
pub open spec fn matches_outcome(r: Result<i32, DomainError>, expected: Result<int, DomainErrorView>)
    -> bool {
    match r {
        Ok(minutes) => expected == Ok::<int, DomainErrorView>(minutes as int),
        Err(e) => expected == Err::<int, DomainErrorView>(e@),
    }
}

/// Resolves a local date and time in a zone to an instant.
///
/// A local time that occurs once is that instant; one that occurs twice is
/// the earlier instant; one that does not occur is moved forward minute by
/// minute, for up to 180 minutes and not beyond the end of the calendar,
/// until it occurs. Where it never does, the wall clock is read as UTC and
/// `fell_back` is set, so that the caller can report it.
pub fn resolve_local(tz: &Zone, date: Date, time: Time) -> (r: Resolution)
    ensures
        r.instant.secs == resolve_local_spec(tz@, local_seconds(date@, whole_secs(time@))).0,
        r.instant.nanos == sub_nanos(time@),
        r.fell_back == resolve_local_spec(tz@, local_seconds(date@, whole_secs(time@))).1,
{
    let zone = tz.name();
    let days: i64 = date.days_from_ce() as i64;
    let start: i64 = (days - UNIX_EPOCH_DAY as i64) * 86_400 + time.seconds_from_midnight() as i64;
    let nanos = time.nanosecond();
    let mut k: u32 = 0;
    while k < MAX_DST_GAP_MINUTES
        invariant
            k <= MAX_DST_GAP_MINUTES,
            MIN_LOCAL_SECS <= start <= MAX_LOCAL_SECS,
            start == local_seconds(date@, whole_secs(time@)),
            nanos == sub_nanos(time@),
            zone@ == tz@,
            known_zone(zone@),
            scan_forward(zone@, start as int, k as nat) == scan_forward(zone@, start as int, 0),
        decreases MAX_DST_GAP_MINUTES - k,
    {
        let at_minute: i64 = start + 60 * (k as i64);
        if at_minute > MAX_LOCAL_SECS {
            return Resolution { instant: Instant { secs: start, nanos }, fell_back: true };
        }
        let found = lookup_local(zone, at_minute).earliest();
        match found {
            Some(at) => {
                return Resolution { instant: Instant { secs: at, nanos }, fell_back: false };
            },
            None => {
                k = k + 1;
            },
        }
    }
    Resolution { instant: Instant { secs: start, nanos }, fell_back: true }
}

/// Whole minutes from `bed` to `wake`.
///
/// Fails with `InvalidInput` where less than a minute lies between the two
/// ("Duration must be positive"), or where the minutes do not fit in an
/// `i32` ("Duration too large").
pub fn duration_between(bed: Instant, wake: Instant) -> (r: Result<i32, DomainError>)
    ensures
        matches_outcome(r, duration_outcome(elapsed_nanos(bed, wake))),
{
    let elapsed: i128 = (wake.secs as i128 - bed.secs as i128) * 1_000_000_000 + (wake.nanos as i128
        - bed.nanos as i128);
    if elapsed < 60_000_000_000 {
        return Err(DomainError::invalid_input("Duration must be positive"));
    }
    let minutes: u128 = (elapsed as u128) / 60_000_000_000;
    if minutes > i32::MAX as u128 {
        return Err(DomainError::invalid_input("Duration too large"));
    }
    Ok(minutes as i32)
}

/// Computes the duration of a sleep session and reports the fallbacks taken.
///
/// See [`compute_duration_min`] for the rule; `bed_fell_back` and
/// `wake_fell_back` tell whether a local time was read as UTC because the
/// zone never knew it, and are `false` where no resolution took place.
pub fn compute_duration(wake_date: Date, bed_time: Time, wake_time: Time, tz: &Zone) -> (r:
    DurationReport)
    ensures
        matches_outcome(r.outcome, compute_duration_spec(tz@, wake_date@, bed_time@, wake_time@)),
        bed_day_of(wake_date@, bed_time@, wake_time@) >= MIN_DAY ==> {
            &&& r.bed_fell_back == resolve_local_spec(
                tz@,
                local_seconds(
                    bed_day_of(wake_date@, bed_time@, wake_time@),
                    whole_secs(bed_time@),
                ),
            ).1
            &&& r.wake_fell_back == resolve_local_spec(
                tz@,
                local_seconds(wake_date@, whole_secs(wake_time@)),
            ).1
        },
        bed_day_of(wake_date@, bed_time@, wake_time@) < MIN_DAY ==> !r.bed_fell_back
            && !r.wake_fell_back,
{
    let wake_day = wake_date.days_from_ce();
    assert(wake_day >= MIN_DAY);
    let bed_date = if bed_time.is_after(&wake_time) {
        match wake_date.pred() {
            Some(d) => d,
            None => {
                return DurationReport {
                    outcome: Err(DomainError::invalid_input("invalid date (underflow)")),
                    bed_fell_back: false,
                    wake_fell_back: false,
                };
            },
        }
    } else {
        wake_date
    };
    let bed = resolve_local(tz, bed_date, bed_time);
    let wake = resolve_local(tz, wake_date, wake_time);
    DurationReport {
        outcome: duration_between(bed.instant, wake.instant),
        bed_fell_back: bed.fell_back,
        wake_fell_back: wake.fell_back,
    }
}

/// Computes the duration in minutes of a sleep session, by the date of waking.
///
/// The bed date is `wake_date`, or the day before where `bed_time` is later in
/// the day than `wake_time`. Both local times are resolved in `tz` as
/// [`resolve_local`] says, and the result is the whole minutes between the
/// two instants.
///
/// Fails with `InvalidInput` where the bed date would lie before the calendar
/// ("invalid date (underflow)"), where less than a minute lies between the
/// two instants ("Duration must be positive"), or where the minutes do not
/// fit in an `i32` ("Duration too large").
pub fn compute_duration_min(wake_date: Date, bed_time: Time, wake_time: Time, tz: &Zone) -> (r:
    Result<i32, DomainError>)
    ensures
        matches_outcome(r, compute_duration_spec(tz@, wake_date@, bed_time@, wake_time@)),
{
    compute_duration(wake_date, bed_time, wake_time, tz).outcome
}

/// A session that does not cross midnight, in a zone whose offset is the same
/// at both ends and known for both local times, lasts the whole minutes from
/// the bed time to the wake time. Stated for sessions of at least one minute:
/// a shorter one has no duration.
pub proof fn lemma_duration_without_transition(
    zone: Seq<char>,
    wake_day: int,
    bed: int,
    wake: int,
    bed_at: i64,
    wake_at: i64,
)
    requires
        day_in_range(wake_day),
        0 <= bed < wake < nanos_per_day(),
        wake - bed >= NANOS_PER_MINUTE,
        zone_lookup(zone, local_seconds(wake_day, whole_secs(bed))) == LocalLookup::Single(bed_at),
        zone_lookup(zone, local_seconds(wake_day, whole_secs(wake))) == LocalLookup::Single(wake_at),
        local_seconds(wake_day, whole_secs(bed)) - bed_at == local_seconds(
            wake_day,
            whole_secs(wake),
        ) - wake_at,
    ensures
        compute_duration_spec(zone, wake_day, bed, wake) == Ok::<int, DomainErrorView>(
            (wake - bed) / (NANOS_PER_MINUTE as int),
        ),
{
    let bed_local = local_seconds(wake_day, whole_secs(bed));
    let wake_local = local_seconds(wake_day, whole_secs(wake));
    assert(scan_forward(zone, bed_local, 0) == (bed_at as int, false));
    assert(scan_forward(zone, wake_local, 0) == (wake_at as int, false));
    Time::lemma_recompose(bed);
    Time::lemma_recompose(wake);
    let elapsed = (wake_at - bed_at) * NANOS_PER_SEC + (sub_nanos(wake) - sub_nanos(bed));
    assert(elapsed == wake - bed) by (nonlinear_arith)
        requires
            elapsed == (wake_at - bed_at) * 1_000_000_000 + (sub_nanos(wake) - sub_nanos(bed)),
            wake_at - bed_at == whole_secs(wake) - whole_secs(bed),
            wake == whole_secs(wake) * 1_000_000_000 + sub_nanos(wake),
            bed == whole_secs(bed) * 1_000_000_000 + sub_nanos(bed),
    ;
    assert((wake - bed) / 60_000_000_000 <= i32::MAX) by {
        assert(wake - bed < 86_400 * 1_000_000_000);
    }
}

/// A session that crosses midnight, in a zone whose offset is the same at
/// both ends and known for both local times, lasts a day less the whole
/// minutes by which the bed time is later in the day than the wake time.
/// Stated for every wake date but the first of the calendar, which has no
/// day before it, and for sessions of at least one minute.
pub proof fn lemma_duration_across_midnight(
    zone: Seq<char>,
    wake_day: int,
    bed: int,
    wake: int,
    bed_at: i64,
    wake_at: i64,
)
    requires
        day_in_range(wake_day),
        wake_day > MIN_DAY,
        0 <= wake < bed < nanos_per_day(),
        nanos_per_day() - (bed - wake) >= NANOS_PER_MINUTE,
        zone_lookup(zone, local_seconds(wake_day - 1, whole_secs(bed))) == LocalLookup::Single(
            bed_at,
        ),
        zone_lookup(zone, local_seconds(wake_day, whole_secs(wake))) == LocalLookup::Single(wake_at),
        local_seconds(wake_day - 1, whole_secs(bed)) - bed_at == local_seconds(
            wake_day,
            whole_secs(wake),
        ) - wake_at,
    ensures
        compute_duration_spec(zone, wake_day, bed, wake) == Ok::<int, DomainErrorView>(
            (nanos_per_day() - (bed - wake)) / (NANOS_PER_MINUTE as int),
        ),
        1 <= (nanos_per_day() - (bed - wake)) / (NANOS_PER_MINUTE as int) <= 1439,
{
    let bed_local = local_seconds(wake_day - 1, whole_secs(bed));
    let wake_local = local_seconds(wake_day, whole_secs(wake));
    Time::lemma_recompose(bed);
    Time::lemma_recompose(wake);
    assert(0 <= whole_secs(bed) < 86_400 && 0 <= whole_secs(wake) < 86_400);
    assert(scan_forward(zone, bed_local, 0) == (bed_at as int, false));
    assert(scan_forward(zone, wake_local, 0) == (wake_at as int, false));
    let elapsed = (wake_at - bed_at) * NANOS_PER_SEC + (sub_nanos(wake) - sub_nanos(bed));
    assert(elapsed == 86_400 * 1_000_000_000 - (bed - wake)) by (nonlinear_arith)
        requires
            elapsed == (wake_at - bed_at) * 1_000_000_000 + (sub_nanos(wake) - sub_nanos(bed)),
            wake_at - bed_at == 86_400 + whole_secs(wake) - whole_secs(bed),
            wake == whole_secs(wake) * 1_000_000_000 + sub_nanos(wake),
            bed == whole_secs(bed) * 1_000_000_000 + sub_nanos(bed),
    ;
}

/// Two sessions between the same two times of day, one each way round the
/// clock, add up to a day. Stated for times in whole minutes, the earlier
/// `first` and the later `second`, for every wake date but the first of the
/// calendar, in a zone whose offset is the same, and known, for the three
/// local times that the two sessions touch; the offset is given in seconds
/// and is small enough for the instants to be written down.
pub proof fn lemma_complementary_durations(
    zone: Seq<char>,
    wake_day: int,
    first: int,
    second: int,
    offset: int,
)
    requires
        day_in_range(wake_day),
        wake_day > MIN_DAY,
        0 <= first < second < nanos_per_day(),
        first % (NANOS_PER_MINUTE as int) == 0,
        second % (NANOS_PER_MINUTE as int) == 0,
        zone_lookup(zone, local_seconds(wake_day, whole_secs(first))) == LocalLookup::Single(
            (local_seconds(wake_day, whole_secs(first)) - offset) as i64,
        ),
        zone_lookup(zone, local_seconds(wake_day, whole_secs(second))) == LocalLookup::Single(
            (local_seconds(wake_day, whole_secs(second)) - offset) as i64,
        ),
        zone_lookup(zone, local_seconds(wake_day - 1, whole_secs(second))) == LocalLookup::Single(
            (local_seconds(wake_day - 1, whole_secs(second)) - offset) as i64,
        ),
        -100_000 <= offset <= 100_000,
    ensures
        compute_duration_spec(zone, wake_day, first, second) == Ok::<int, DomainErrorView>(
            (second - first) / (NANOS_PER_MINUTE as int),
        ),
        compute_duration_spec(zone, wake_day, second, first) == Ok::<int, DomainErrorView>(
            1440 - (second - first) / (NANOS_PER_MINUTE as int),
        ),
        1 <= (second - first) / (NANOS_PER_MINUTE as int) <= 1439,
{
    Time::lemma_recompose(first);
    Time::lemma_recompose(second);
    let same_day_first = local_seconds(wake_day, whole_secs(first));
    let same_day_second = local_seconds(wake_day, whole_secs(second));
    let eve_second = local_seconds(wake_day - 1, whole_secs(second));
    assert(0 <= whole_secs(first) < 86_400 && 0 <= whole_secs(second) < 86_400);
    lemma_duration_without_transition(
        zone,
        wake_day,
        first,
        second,
        (same_day_first - offset) as i64,
        (same_day_second - offset) as i64,
    );
    lemma_duration_across_midnight(
        zone,
        wake_day,
        second,
        first,
        (eve_second - offset) as i64,
        (same_day_first - offset) as i64,
    );
}

} // verus!
