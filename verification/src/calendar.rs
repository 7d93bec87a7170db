//! Calendar dates and times of day as plain numbers.
//!
//! A [`Date`] is a day number in the proleptic Gregorian calendar, day 1 being
//! 0001-01-01 (a Monday), over the whole range of dates that `chrono` holds;
//! a [`Time`] is a count of seconds since local midnight with a sub-second
//! part. Both carry their range as a type invariant, so every value that
//! executable code holds is valid.
//!
//! Day arithmetic, weekdays and comparisons are computed here on the day
//! number. What needs the civil calendar (year, month, day, ISO week, text)
//! is asked of `chrono`, behind wrappers whose results are named.

use chrono::Datelike;
use vstd::prelude::*;

verus! {

/// Day number of the first date of the calendar: 1 January of the year
/// -262143, the earliest date that `chrono` holds.
pub const MIN_DAY: i32 = -95_746_129;

/// Day number of the last date of the calendar: 31 December of the year
/// 262142, the latest date that `chrono` holds.
pub const MAX_DAY: i32 = 95_745_399;

/// Day number of 1970-01-01.
pub const UNIX_EPOCH_DAY: i32 = 719_163;

/// Seconds in a day.
pub const SECS_PER_DAY: u32 = 86_400;

/// Nanoseconds in a second.
pub const NANOS_PER_SEC: u32 = 1_000_000_000;

/// Day number that `chrono` gives a year, month and day, if they form a date.
pub uninterp spec fn civil_day_number(year: i32, month: u32, day: u32) -> Option<i32>;

/// Year, month and day that `chrono` gives a day number.
pub uninterp spec fn civil_of_day_number(days: i32) -> (i32, u32, u32);

/// ISO 8601 week-numbering year and week that `chrono` gives a day number.
pub uninterp spec fn iso_week_of_day_number(days: i32) -> (i32, u32);

/// Text that `chrono` renders for a day number under the format `%Y-%m-%d`.
pub uninterp spec fn ymd_text(days: i32) -> Seq<char>;

/// Day number that `chrono` reads from a text under the format `%Y-%m-%d`.
pub uninterp spec fn parsed_ymd(text: Seq<char>) -> Option<i32>;

/// `chrono::NaiveDate::from_ymd_opt`, the date handed back as its
/// `num_days_from_ce`. The contract names the result and says that the day
/// number lies between those of `NaiveDate::MIN` and `NaiveDate::MAX`.
#[verifier::external_body]
fn day_number_from_civil(year: i32, month: u32, day: u32) -> (r: Option<i32>)
    ensures
        r == civil_day_number(year, month, day),
        r.is_some() ==> MIN_DAY <= r.unwrap() <= MAX_DAY,
{
    chrono::NaiveDate::from_ymd_opt(year, month, day).map(|d| d.num_days_from_ce())
}

/// `year`, `month` and `day` of the `chrono::NaiveDate` with the given day
/// number. The contract names the result and repeats the ranges that the
/// documentation of `Datelike::month` and `Datelike::day` gives.
#[verifier::external_body]
fn civil_from_day_number(days: i32) -> (r: (i32, u32, u32))
    requires
        MIN_DAY <= days <= MAX_DAY,
    ensures
        r == civil_of_day_number(days),
        1 <= r.1 <= 12,
        1 <= r.2 <= 31,
{
    let d = chrono::NaiveDate::from_num_days_from_ce_opt(days).unwrap();
    (d.year(), d.month(), d.day())
}

/// `Datelike::iso_week` of the `chrono::NaiveDate` with the given day number.
/// The contract names the result and repeats the range that the documentation
/// of `IsoWeek::week` gives.
#[verifier::external_body]
fn iso_week_from_day_number(days: i32) -> (r: (i32, u32))
    requires
        MIN_DAY <= days <= MAX_DAY,
    ensures
        r == iso_week_of_day_number(days),
        1 <= r.1 <= 53,
{
    let w = chrono::NaiveDate::from_num_days_from_ce_opt(days).unwrap().iso_week();
    (w.year(), w.week())
}

/// `chrono::NaiveDate::format` with `%Y-%m-%d`, rendered to a `String`.
/// The contract only names the result.
#[verifier::external_body]
fn render_ymd(days: i32) -> (s: String)
    requires
        MIN_DAY <= days <= MAX_DAY,
    ensures
        s@ == ymd_text(days),
{
    chrono::NaiveDate::from_num_days_from_ce_opt(days).unwrap().format("%Y-%m-%d").to_string()
}

/// `chrono::NaiveDate::parse_from_str` with `%Y-%m-%d`, the date handed back
/// as its `num_days_from_ce`, a parse error as `None`. The contract names the
/// result and says that the day number lies between those of
/// `NaiveDate::MIN` and `NaiveDate::MAX`.
#[verifier::external_body]
fn read_ymd(text: &str) -> (r: Option<i32>)
    ensures
        r == parsed_ymd(text@),
        r.is_some() ==> MIN_DAY <= r.unwrap() <= MAX_DAY,
{
    match chrono::NaiveDate::parse_from_str(text, "%Y-%m-%d") {
        Ok(d) => Some(d.num_days_from_ce()),
        Err(_) => None,
    }
}

/// A calendar date, from 1 January -262143 to 31 December 262142.
#[derive(Clone, Copy, Debug)]
pub struct Date {
    days: i32,
}

impl View for Date {
    type V = int;

    /// The day number, 0001-01-01 being day 1.
    closed spec fn view(&self) -> int {
        self.days as int
    }
}

/// Whether a day number lies inside the calendar.
pub open spec fn day_in_range(days: int) -> bool {
    MIN_DAY <= days <= MAX_DAY
}

/// An optional day number as a mathematical number.
pub open spec fn day_of(days: Option<i32>) -> Option<int> {
    match days {
        Some(n) => Some(n as int),
        None => None,
    }
}

/// Weekday of a day number: 0 is Monday, 6 is Sunday.
pub open spec fn weekday_of(days: int) -> int {
    (days - 1) % 7
}

/// Whether a day number falls on a Saturday or a Sunday.
pub open spec fn is_weekend_day(days: int) -> bool {
    weekday_of(days) >= 5
}

impl Date {
    #[verifier::type_invariant]
    closed spec fn inv(self) -> bool {
        MIN_DAY <= self.days <= MAX_DAY
    }

    /// The date with the given day number, if the calendar holds it.
    pub fn from_days_from_ce(days: i32) -> (r: Option<Date>)
        ensures
            r.is_some() <==> day_in_range(days as int),
            r.is_some() ==> r.unwrap()@ == days,
    {
        if MIN_DAY <= days && days <= MAX_DAY {
            Some(Date { days })
        } else {
            None
        }
    }

    /// The day number, 0001-01-01 being day 1.
    pub fn days_from_ce(&self) -> (d: i32)
        ensures
            d == self@,
            day_in_range(d as int),
    {
        proof {
            use_type_invariant(self);
        }
        self.days
    }

    /// The date of a year, month and day, if they form a date.
    pub fn from_ymd(year: i32, month: u32, day: u32) -> (r: Option<Date>)
        ensures
            r.is_some() == civil_day_number(year, month, day).is_some(),
            r.is_some() ==> Some(r.unwrap()@) == day_of(civil_day_number(year, month, day)),
    {
        match day_number_from_civil(year, month, day) {
            Some(n) => Self::from_days_from_ce(n),
            None => None,
        }
    }

    /// Year, month (1 to 12) and day of the month (1 to 31).
    pub fn ymd(&self) -> (r: (i32, u32, u32))
        ensures
            r == civil_of_day_number(self@ as i32),
            1 <= r.1 <= 12,
            1 <= r.2 <= 31,
    {
        civil_from_day_number(self.days_from_ce())
    }

    /// ISO 8601 week-numbering year and week (1 to 53).
    pub fn iso_week(&self) -> (r: (i32, u32))
        ensures
            r == iso_week_of_day_number(self@ as i32),
            1 <= r.1 <= 53,
    {
        iso_week_from_day_number(self.days_from_ce())
    }

    /// The date as `YYYY-MM-DD`.
    pub fn format_ymd(&self) -> (s: String)
        ensures
            s@ == ymd_text(self@ as i32),
    {
        render_ymd(self.days_from_ce())
    }

    /// Reads a date written as `YYYY-MM-DD`; `None` where the text is no
    /// date.
    pub fn parse_ymd(text: &str) -> (r: Option<Date>)
        ensures
            r.is_some() == parsed_ymd(text@).is_some(),
            r.is_some() ==> Some(r.unwrap()@) == day_of(parsed_ymd(text@)),
    {
        match read_ymd(text) {
            Some(n) => Self::from_days_from_ce(n),
            None => None,
        }
    }

    /// The day before, or `None` on the first day of the calendar.
    pub fn pred(&self) -> (r: Option<Date>)
        ensures
            r.is_some() <==> self@ > MIN_DAY,
            r.is_some() ==> r.unwrap()@ == self@ - 1,
    {
        let d = self.days_from_ce();
        if d > MIN_DAY {
            Some(Date { days: d - 1 })
        } else {
            None
        }
    }

    /// The date `n` days earlier, or `None` where that leaves the calendar.
    pub fn minus_days(&self, n: u32) -> (r: Option<Date>)
        ensures
            r.is_some() <==> self@ - n >= MIN_DAY,
            r.is_some() ==> r.unwrap()@ == self@ - n,
    {
        let back: i64 = self.days_from_ce() as i64 - n as i64;
        if back >= MIN_DAY as i64 {
            Some(Date { days: back as i32 })
        } else {
            None
        }
    }

    /// The date `n` days later, or `None` where that leaves the calendar.
    pub fn plus_days(&self, n: u32) -> (r: Option<Date>)
        ensures
            r.is_some() <==> self@ + n <= MAX_DAY,
            r.is_some() ==> r.unwrap()@ == self@ + n,
    {
        let on: i64 = self.days_from_ce() as i64 + n as i64;
        if on <= MAX_DAY as i64 {
            Some(Date { days: on as i32 })
        } else {
            None
        }
    }

    /// Days from `earlier` to `self`; negative where `self` is the earlier.
    pub fn days_since(&self, earlier: &Date) -> (n: i32)
        ensures
            n == self@ - earlier@,
            MIN_DAY - MAX_DAY <= n <= MAX_DAY - MIN_DAY,
    {
        self.days_from_ce() - earlier.days_from_ce()
    }

    /// Whether `self` is an earlier date than `other`.
    pub fn is_before(&self, other: &Date) -> (b: bool)
        ensures
            b == (self@ < other@),
    {
        self.days_from_ce() < other.days_from_ce()
    }

    /// Whether two dates are the same day.
    pub fn same_day(&self, other: &Date) -> (b: bool)
        ensures
            b == (self@ == other@),
    {
        self.days_from_ce() == other.days_from_ce()
    }

    /// Weekday: 0 is Monday, 6 is Sunday.
    pub fn weekday_index(&self) -> (w: u8)
        ensures
            w == weekday_of(self@),
            w < 7,
    {
        let since_monday: i32 = self.days_from_ce() - 1;
        if since_monday >= 0 {
            (since_monday % 7) as u8
        } else {
            let back: i32 = (-since_monday) % 7;
            if back == 0 {
                0
            } else {
                (7 - back) as u8
            }
        }
    }

    /// Whether the date is a Saturday or a Sunday.
    pub fn is_weekend(&self) -> (b: bool)
        ensures
            b == is_weekend_day(self@),
    {
        self.weekday_index() >= 5
    }
}

/// A time of day: whole seconds since midnight and nanoseconds within the second.
#[derive(Clone, Copy, Debug)]
pub struct Time {
    secs: u32,
    nanos: u32,
}

impl View for Time {
    type V = int;

    /// Nanoseconds since midnight.
    closed spec fn view(&self) -> int {
        self.secs as int * NANOS_PER_SEC as int + self.nanos as int
    }
}

/// Nanoseconds in a day.
pub open spec fn nanos_per_day() -> int {
    SECS_PER_DAY as int * NANOS_PER_SEC as int
}

/// Nanoseconds since midnight of an hour, minute, second and nanosecond.
pub open spec fn nanos_of_hms(hour: int, minute: int, second: int, nano: int) -> int {
    (hour * 3600 + minute * 60 + second) * NANOS_PER_SEC as int + nano
}

/// Whole seconds since midnight of a time given in nanoseconds.
pub open spec fn whole_secs(t: int) -> int {
    t / (NANOS_PER_SEC as int)
}

/// Nanoseconds within the second of a time given in nanoseconds.
pub open spec fn sub_nanos(t: int) -> int {
    t % (NANOS_PER_SEC as int)
}

/// Whole minutes since midnight of a time given in nanoseconds.
pub open spec fn clock_minutes_of(t: int) -> int {
    whole_secs(t) / 60
}

impl Time {
    #[verifier::type_invariant]
    closed spec fn inv(self) -> bool {
        self.secs < SECS_PER_DAY && self.nanos < NANOS_PER_SEC
    }

    /// The time of an hour, minute and second; `None` unless `hour < 24`,
    /// `minute < 60` and `second < 60`.
    pub fn from_hms(hour: u32, minute: u32, second: u32) -> (r: Option<Time>)
        ensures
            r.is_some() <==> hour < 24 && minute < 60 && second < 60,
            r.is_some() ==> r.unwrap()@ == nanos_of_hms(hour as int, minute as int, second as int, 0),
    {
        Self::from_hms_nano(hour, minute, second, 0)
    }

    /// The time of an hour, minute, second and nanosecond; `None` unless
    /// `hour < 24`, `minute < 60`, `second < 60` and `nano < 1_000_000_000`.
    pub fn from_hms_nano(hour: u32, minute: u32, second: u32, nano: u32) -> (r: Option<Time>)
        ensures
            r.is_some() <==> hour < 24 && minute < 60 && second < 60 && nano < NANOS_PER_SEC,
            r.is_some() ==> r.unwrap()@ == nanos_of_hms(
                hour as int,
                minute as int,
                second as int,
                nano as int,
            ),
    {
        if hour < 24 && minute < 60 && second < 60 && nano < NANOS_PER_SEC {
            let secs: u32 = hour * 3600 + minute * 60 + second;
            assert(nanos_per_day() > secs as int * NANOS_PER_SEC as int + nano as int)
                by (nonlinear_arith)
                requires
                    secs < 86_400,
                    nano < 1_000_000_000,
            ;
            Some(Time { secs, nanos: nano })
        } else {
            None
        }
    }

    /// Whole seconds since midnight, below 86 400.
    pub fn seconds_from_midnight(&self) -> (s: u32)
        ensures
            s == whole_secs(self@),
            s < SECS_PER_DAY,
            0 <= self@ < nanos_per_day(),
    {
        proof {
            use_type_invariant(self);
            Self::lemma_parts(self.secs as int, self.nanos as int);
        }
        self.secs
    }

    /// Nanoseconds within the second, below 1 000 000 000.
    pub fn nanosecond(&self) -> (n: u32)
        ensures
            n == sub_nanos(self@),
            n < NANOS_PER_SEC,
    {
        proof {
            use_type_invariant(self);
            Self::lemma_parts(self.secs as int, self.nanos as int);
        }
        self.nanos
    }

    /// Hour of the day, 0 to 23.
    pub fn hour(&self) -> (h: u32)
        ensures
            h == whole_secs(self@) / 3600,
            h < 24,
    {
        self.seconds_from_midnight() / 3600
    }

    /// Minute of the hour, 0 to 59.
    pub fn minute(&self) -> (m: u32)
        ensures
            m == (whole_secs(self@) / 60) % 60,
            m < 60,
    {
        (self.seconds_from_midnight() / 60) % 60
    }

    /// Second of the minute, 0 to 59.
    pub fn second(&self) -> (s: u32)
        ensures
            s == whole_secs(self@) % 60,
            s < 60,
    {
        self.seconds_from_midnight() % 60
    }

    /// Whole minutes since midnight, below 1440.
    pub fn clock_minutes(&self) -> (m: u32)
        ensures
            m == clock_minutes_of(self@),
            m < 1440,
    {
        self.seconds_from_midnight() / 60
    }

    /// Whether `self` is a later time of day than `other`.
    pub fn is_after(&self, other: &Time) -> (b: bool)
        ensures
            b == (self@ > other@),
    {
        let (s1, n1) = (self.seconds_from_midnight(), self.nanosecond());
        let (s2, n2) = (other.seconds_from_midnight(), other.nanosecond());
        proof {
            Self::lemma_recompose(self@);
            Self::lemma_recompose(other@);
            assert((s1 > s2) ==> s1 * 1_000_000_000 + n1 > s2 * 1_000_000_000 + n2)
                by (nonlinear_arith)
                requires
                    n1 < 1_000_000_000,
                    n2 < 1_000_000_000,
            ;
            assert((s1 < s2) ==> s1 * 1_000_000_000 + n1 < s2 * 1_000_000_000 + n2)
                by (nonlinear_arith)
                requires
                    n1 < 1_000_000_000,
                    n2 < 1_000_000_000,
            ;
        }
        s1 > s2 || (s1 == s2 && n1 > n2)
    }

    proof fn lemma_parts(secs: int, nanos: int)
        requires
            0 <= secs,
            0 <= nanos < NANOS_PER_SEC,
        ensures
            whole_secs(secs * NANOS_PER_SEC as int + nanos) == secs,
            sub_nanos(secs * NANOS_PER_SEC as int + nanos) == nanos,
            secs < SECS_PER_DAY ==> secs * NANOS_PER_SEC as int + nanos < nanos_per_day(),
    {
        vstd::arithmetic::div_mod::lemma_fundamental_div_mod_converse(
            secs * 1_000_000_000 + nanos,
            1_000_000_000,
            secs,
            nanos,
        );
        assert(secs < 86_400 ==> secs * 1_000_000_000 + nanos < 86_400 * 1_000_000_000)
            by (nonlinear_arith)
            requires
                nanos < 1_000_000_000,
        ;
    }

    /// A time in nanoseconds is its whole seconds and its nanoseconds put together.
    pub proof fn lemma_recompose(t: int)
        ensures
            t == whole_secs(t) * NANOS_PER_SEC as int + sub_nanos(t),
            0 <= sub_nanos(t) < NANOS_PER_SEC,
    {
        vstd::arithmetic::div_mod::lemma_fundamental_div_mod(t, 1_000_000_000);
        assert(1_000_000_000 * (t / 1_000_000_000) == (t / 1_000_000_000) * 1_000_000_000)
            by (nonlinear_arith);
    }
}

} // verus!
