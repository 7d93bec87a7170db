//! Checks on the parameters of list requests.

use crate::calendar::Date;
use vstd::prelude::*;

verus! {

/// Number of days listed where a request names none.
pub const DEFAULT_RECENT_DAYS: i32 = 7;

/// Largest number of days a request may list.
pub const MAX_RECENT_DAYS: i32 = 31;

/// Longest date range a request may span, in days.
pub const MAX_SPAN_DAYS: i32 = 62;

/// A rejected parameter: the response has status 400, the `code` field
/// `bad_request`, and this message.
#[derive(Clone, Copy, Debug, PartialEq, Eq, Structural)]
pub enum BadRequest {
    DaysOutOfRange,
    FromAfterTo,
    RangeTooLong,
}

impl BadRequest {
    /// The `message` field of the response.
    pub open spec fn message_spec(self) -> Seq<char> {
        match self {
            BadRequest::DaysOutOfRange => "days must be between 1 and 31"@,
            BadRequest::FromAfterTo => "from must be <= to"@,
            BadRequest::RangeTooLong => "range must be <= 62 days"@,
        }
    }

    /// The `message` field of the response.
    pub fn message(&self) -> (s: &'static str)
        ensures
            s@ == self.message_spec(),
    {
        match self {
            BadRequest::DaysOutOfRange => "days must be between 1 and 31",
            BadRequest::FromAfterTo => "from must be <= to",
            BadRequest::RangeTooLong => "range must be <= 62 days",
        }
    }
}

/// The number of days to list: 7 where the request names none, the named
/// number where it lies between 1 and 31, and a rejection otherwise.
pub open spec fn recent_days_spec(days: Option<i32>) -> Result<i32, BadRequest> {
    match days {
        None => Ok(DEFAULT_RECENT_DAYS),
        Some(d) => if 1 <= d <= MAX_RECENT_DAYS {
            Ok(d)
        } else {
            Err(BadRequest::DaysOutOfRange)
        },
    }
}

/// What the range check says of two day numbers.
pub open spec fn range_verdict(from: int, to: int) -> Option<BadRequest> {
    if from > to {
        Some(BadRequest::FromAfterTo)
    } else if to - from + 1 > MAX_SPAN_DAYS {
        Some(BadRequest::RangeTooLong)
    } else {
        None
    }
}

/// Reads the `days` parameter of a recent-entries request.
pub fn recent_days(days: Option<i32>) -> (r: Result<i32, BadRequest>)
    ensures
        r == recent_days_spec(days),
{
    match days {
        None => Ok(DEFAULT_RECENT_DAYS),
        Some(d) => {
            if 1 <= d && d <= MAX_RECENT_DAYS {
                Ok(d)
            } else {
                Err(BadRequest::DaysOutOfRange)
            }
        },
    }
}

/// Checks an inclusive date range: it must not end before it starts, and may
/// span at most 62 days.
pub fn check_range(from: &Date, to: &Date) -> (r: Result<(), BadRequest>)
    ensures
        match range_verdict(from@, to@) {
            Some(why) => r == Err::<(), BadRequest>(why),
            None => r.is_ok(),
        },
{
    if to.is_before(from) {
        return Err(BadRequest::FromAfterTo);
    }
    let span_days = to.days_since(from) + 1;
    if span_days > MAX_SPAN_DAYS {
        return Err(BadRequest::RangeTooLong);
    }
    Ok(())
}

} // verus!
