//! Rolling windows: the current window, the prior window, and their coverage.
//!
//! Given the day a request looks back from and a window length, the current
//! window is the last `window_days` days up to that day, and the prior window
//! is the `window_days` days just before it. Coverage counts, for a window,
//! the days on which at least one sample was logged.

use crate::calendar::{day_in_range, Date, MIN_DAY};
use crate::domain::{DomainError, DomainErrorView};
use vstd::prelude::*;

verus! {

/// Shortest window, in days.
pub const MIN_WINDOW_DAYS: i32 = 1;

/// Longest window, in days.
pub const MAX_WINDOW_DAYS: i32 = 365;

/// An inclusive range of dates.
#[derive(Clone, Copy, Debug)]
pub struct WindowBounds {
    pub from: Date,
    pub to: Date,
}

/// The current window and the prior window of equal length just before it.
#[derive(Clone, Copy, Debug)]
pub struct WindowPair {
    pub current: WindowBounds,
    pub prior: WindowBounds,
}

/// A window with its coverage. `missing_days_pct_centi` is the share of
/// missing days in hundredths of a percent, rounded down.
#[derive(Clone, Copy, Debug)]
pub struct Window {
    pub from: Date,
    pub to: Date,
    pub logged_days: u32,
    pub missing_days: u32,
    pub missing_days_pct_centi: u32,
}

/// Whether a window length is accepted: 1 to 365 days.
pub open spec fn window_days_ok(window_days: int) -> bool {
    MIN_WINDOW_DAYS <= window_days <= MAX_WINDOW_DAYS
}

/// First day of the current window.
pub open spec fn current_from(as_of: int, window_days: int) -> int {
    as_of - (window_days - 1)
}

/// Last day of the prior window: the day before the current window starts.
pub open spec fn prior_to(as_of: int, window_days: int) -> int {
    current_from(as_of, window_days) - 1
}

/// First day of the prior window.
pub open spec fn prior_from(as_of: int, window_days: int) -> int {
    prior_to(as_of, window_days) - (window_days - 1)
}

/// What asking for the two windows gives: nothing to object, or the complaint.
pub open spec fn window_complaint(as_of: int, window_days: int) -> Option<Seq<char>> {
    if !window_days_ok(window_days) {
        Some("window_days must be between 1 and 365"@)
    } else if prior_from(as_of, window_days) < MIN_DAY {
        Some("invalid date (underflow)"@)
    } else {
        None
    }
}

/// Whether a pair of windows is the one looking back `window_days` days from `as_of`.
pub open spec fn is_window_pair(pair: WindowPair, as_of: int, window_days: int) -> bool {
    &&& pair.current.to@ == as_of
    &&& pair.current.from@ == current_from(as_of, window_days)
    &&& pair.prior.to@ == prior_to(as_of, window_days)
    &&& pair.prior.from@ == prior_from(as_of, window_days)
}

/// The day numbers of some dates, in their order.
pub open spec fn days_of(dates: Seq<Date>) -> Seq<int> {
    dates.map_values(|d: Date| d@)
}

/// Number of days from `from` to `to` on which a sample was logged: each day
/// of the range counts once if `days` holds it, however often.
pub open spec fn logged_between(days: Seq<int>, from: int, to: int) -> nat
    decreases to - from + 1,
{
    if to < from {
        0
    } else {
        logged_between(days, from, to - 1) + if days.contains(to) {
            1nat
        } else {
            0nat
        }
    }
}

/// Whether a day lies in an inclusive range.
pub open spec fn in_range(day: int, from: int, to: int) -> bool {
    from <= day <= to
}

/// Number of days of an inclusive range; none where it ends before it starts.
pub open spec fn span_days(from: int, to: int) -> int {
    if to < from {
        0
    } else {
        to - from + 1
    }
}

/// Whether a window carries the coverage of the range `from` to `to` for the
/// logged days `days`.
pub open spec fn is_coverage(w: Window, days: Seq<int>, from: int, to: int) -> bool {
    &&& w.from@ == from
    &&& w.to@ == to
    &&& w.logged_days == logged_between(days, from, to)
    &&& w.missing_days == span_days(from, to) - w.logged_days
    &&& w.missing_days_pct_centi == if span_days(from, to) == 0 {
        0
    } else {
        (w.missing_days * 10_000) / span_days(from, to)
    }
}

/// The current and the prior window looking back from `as_of`.
///
/// The current window is the `window_days` days that end on `as_of`; the
/// prior window is the `window_days` days that end on the day before the
/// current window starts. Fails with `InvalidInput` where `window_days` is
/// not between 1 and 365, or where the prior window would start before the
/// calendar.
pub fn window_pair(as_of: Date, window_days: i32) -> (r: Result<WindowPair, DomainError>)
    ensures
        match window_complaint(as_of@, window_days as int) {
            Some(msg) => r.is_err() && r.unwrap_err()@ == DomainErrorView::InvalidInput(msg),
            None => r.is_ok() && is_window_pair(r.unwrap(), as_of@, window_days as int),
        },
{
    if window_days < MIN_WINDOW_DAYS || window_days > MAX_WINDOW_DAYS {
        return Err(DomainError::invalid_input("window_days must be between 1 and 365"));
    }
    let back: u32 = (window_days - 1) as u32;
    let _ = as_of.days_from_ce();
    let current_first = match as_of.minus_days(back) {
        Some(d) => d,
        None => {
            return Err(DomainError::invalid_input("invalid date (underflow)"));
        },
    };
    let prior_last = match current_first.pred() {
        Some(d) => d,
        None => {
            return Err(DomainError::invalid_input("invalid date (underflow)"));
        },
    };
    let prior_first = match prior_last.minus_days(back) {
        Some(d) => d,
        None => {
            return Err(DomainError::invalid_input("invalid date (underflow)"));
        },
    };
    Ok(
        WindowPair {
            current: WindowBounds { from: current_first, to: as_of },
            prior: WindowBounds { from: prior_first, to: prior_last },
        },
    )
}

/// The two windows of a pair have the same length, the prior one ends the day
/// before the current one starts, and they share no day.
pub proof fn lemma_windows_contiguous(as_of: int, window_days: int)
    requires
        window_days_ok(window_days),
    ensures
        as_of - current_from(as_of, window_days) + 1 == window_days,
        prior_to(as_of, window_days) - prior_from(as_of, window_days) + 1 == window_days,
        prior_to(as_of, window_days) + 1 == current_from(as_of, window_days),
        forall|day: int|
            !(#[trigger] in_range(
                day,
                prior_from(as_of, window_days),
                prior_to(as_of, window_days),
            ) && in_range(day, current_from(as_of, window_days), as_of)),
{
}

/// No more days are logged in a range than the range holds.
pub proof fn lemma_logged_at_most_span(days: Seq<int>, from: int, to: int)
    ensures
        logged_between(days, from, to) <= span_days(from, to),
    decreases to - from + 1,
{
    if to >= from {
        lemma_logged_at_most_span(days, from, to - 1);
    }
}

fn holds_day(dates: &Vec<Date>, day: i32) -> (found: bool)
    ensures
        found == days_of(dates@).contains(day as int),
{
    let mut j: usize = 0;
    while j < dates.len()
        invariant
            j <= dates.len(),
            forall|k: int| 0 <= k < j ==> days_of(dates@)[k] != day,
        decreases dates.len() - j,
    {
        if dates[j].days_from_ce() == day {
            assert(days_of(dates@)[j as int] == day);
            return true;
        }
        j += 1;
    }
    false
}

/// The coverage of a range of dates: how many of its days have a sample, how
/// many have none, and the share of those in hundredths of a percent.
/// `dates` are the wake dates of the samples, in any order and with repeats.
pub fn window_coverage(bounds: &WindowBounds, dates: &Vec<Date>) -> (w: Window)
    ensures
        is_coverage(w, days_of(dates@), bounds.from@, bounds.to@),
{
    let from = bounds.from.days_from_ce();
    let to = bounds.to.days_from_ce();
    let mut logged: u32 = 0;
    let mut day: i32 = from;
    while day <= to
        invariant
            day_in_range(from as int),
            day_in_range(to as int),
            from <= day,
            day <= to + 1 || to < from,
            to < from ==> day == from,
            logged == logged_between(days_of(dates@), from as int, day - 1),
            logged <= span_days(from as int, day - 1),
        decreases to - day + 1,
    {
        if holds_day(dates, day) {
            logged += 1;
        }
        day += 1;
    }
    let span: u32 = if to < from {
        0
    } else {
        (to - from + 1) as u32
    };
    proof {
        lemma_logged_at_most_span(days_of(dates@), from as int, to as int);
    }
    let missing: u32 = span - logged;
    let pct: u32 = if span == 0 {
        0
    } else {
        assert((missing * 10_000) / (span as int) <= 10_000) by (nonlinear_arith)
            requires
                0 <= missing <= span,
                span > 0,
        ;
        ((missing as u64 * 10_000) / (span as u64)) as u32
    };
    Window {
        from: bounds.from,
        to: bounds.to,
        logged_days: logged,
        missing_days: missing,
        missing_days_pct_centi: pct,
    }
}

} // verus!
