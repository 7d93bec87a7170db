//! Exercise intensity levels.

use crate::domain::{DomainError, DomainErrorView};
use crate::text::str_eq;
use vstd::prelude::*;
use vstd::string::StringExecFns;

verus! {

/// Exercise intensity level, written `none`, `light` or `hard`.
#[derive(Debug, Clone, Copy, PartialEq, Eq, Structural)]
pub enum Intensity {
    /// No exercise; written `none`.
    Rest,
    Light,
    Hard,
}

impl Intensity {
    /// The lowercase word of a level.
    pub open spec fn word(self) -> Seq<char> {
        match self {
            Intensity::Rest => "none"@,
            Intensity::Light => "light"@,
            Intensity::Hard => "hard"@,
        }
    }

    /// The level that a text names, if it is one of the three words.
    pub open spec fn parse_spec(text: Seq<char>) -> Option<Intensity> {
        if text == "none"@ {
            Some(Intensity::Rest)
        } else if text == "light"@ {
            Some(Intensity::Light)
        } else if text == "hard"@ {
            Some(Intensity::Hard)
        } else {
            None
        }
    }

    /// The lowercase word of the level.
    pub fn as_str(&self) -> (s: &'static str)
        ensures
            s@ == self.word(),
    {
        match self {
            Intensity::Rest => "none",
            Intensity::Light => "light",
            Intensity::Hard => "hard",
        }
    }

    /// The lowercase word of the level, as an owned text.
    pub fn to_string(&self) -> (s: String)
        ensures
            s@ == self.word(),
    {
        String::from_str(self.as_str())
    }

    /// Reads a level from its lowercase word; any other text is rejected
    /// with `InvalidIntensity` holding that text.
    pub fn parse(text: &str) -> (r: Result<Intensity, DomainError>)
        ensures
            match Self::parse_spec(text@) {
                Some(level) => r == Ok::<Intensity, DomainError>(level),
                None => r.is_err() && r.unwrap_err()@ == DomainErrorView::InvalidIntensity(text@),
            },
    {
        if str_eq(text, "none") {
            Ok(Intensity::Rest)
        } else if str_eq(text, "light") {
            Ok(Intensity::Light)
        } else if str_eq(text, "hard") {
            Ok(Intensity::Hard)
        } else {
            Err(DomainError::InvalidIntensity(String::from_str(text)))
        }
    }
}

/// Every level is read back from its own word, and the three words differ.
pub proof fn lemma_intensity_round_trip(level: Intensity)
    ensures
        Intensity::parse_spec(level.word()) == Some(level),
{
    reveal_strlit("none");
    reveal_strlit("light");
    reveal_strlit("hard");
    assert("none"@.len() == 4);
    assert("light"@.len() == 5);
    assert("hard"@.len() == 4);
    assert("none"@[0] == 'n');
    assert("hard"@[0] == 'h');
}

impl core::str::FromStr for Intensity {
    type Err = DomainError;

    /// Reads a level from its lowercase word, as [`Intensity::parse`] does.
    fn from_str(s: &str) -> (r: Result<Self, Self::Err>)
        ensures
            match Intensity::parse_spec(s@) {
                Some(level) => r == Ok::<Intensity, DomainError>(level),
                None => r.is_err() && r.unwrap_err()@ == DomainErrorView::InvalidIntensity(s@),
            },
    {
        Intensity::parse(s)
    }
}

} // verus!
