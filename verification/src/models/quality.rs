//! Sleep quality score.

use crate::domain::{DomainError, DomainErrorView};
use vstd::prelude::*;

verus! {

/// Sleep quality score; valid scores are 1 to 5, higher is better.
#[derive(Debug, Clone, Copy, PartialEq, Eq, Structural)]
pub struct Quality(pub u8);

/// Whether a raw score is a quality score.
pub open spec fn is_quality_score(v: int) -> bool {
    1 <= v <= 5
}

impl Quality {
    /// The underlying score.
    pub fn value(self) -> (v: u8)
        ensures
            v == self.0,
    {
        self.0
    }

    /// Whether the score lies in 1 to 5.
    pub open spec fn is_valid(self) -> bool {
        is_quality_score(self.0 as int)
    }

    /// The quality of a raw score; `InvalidQuality` unless the score is 1 to 5.
    pub fn try_from(v: u8) -> (r: Result<Quality, DomainError>)
        ensures
            is_quality_score(v as int) ==> r == Ok::<Quality, DomainError>(Quality(v)),
            !is_quality_score(v as int) ==> r.is_err() && r.unwrap_err()@
                == DomainErrorView::InvalidQuality,
    {
        if 1 <= v && v <= 5 {
            Ok(Quality(v))
        } else {
            Err(DomainError::InvalidQuality)
        }
    }
}

} // verus!
