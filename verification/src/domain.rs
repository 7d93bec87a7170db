//! Domain error type shared by the validation and time rules.

use vstd::prelude::*;
use vstd::string::StringExecFns;

verus! {

/// Validation failure of the domain layer.
#[derive(Debug)]
pub enum DomainError {
    /// Parsing or validation failure for exercise intensity; holds the rejected text.
    InvalidIntensity(String),
    /// Sleep quality outside `1..=5`.
    InvalidQuality,
    /// Any other validation failure; holds the message.
    InvalidInput(String),
}

/// Mathematical value of a [`DomainError`].
pub enum DomainErrorView {
    InvalidIntensity(Seq<char>),
    InvalidQuality,
    InvalidInput(Seq<char>),
}

impl View for DomainError {
    type V = DomainErrorView;

    open spec fn view(&self) -> DomainErrorView {
        match self {
            DomainError::InvalidIntensity(s) => DomainErrorView::InvalidIntensity(s@),
            DomainError::InvalidQuality => DomainErrorView::InvalidQuality,
            DomainError::InvalidInput(s) => DomainErrorView::InvalidInput(s@),
        }
    }
}

impl DomainErrorView {
    /// The text a reader of the error sees.
    pub open spec fn message(self) -> Seq<char> {
        match self {
            DomainErrorView::InvalidIntensity(s) => "invalid intensity: "@ + s,
            DomainErrorView::InvalidQuality => "quality must be between 1 and 5"@,
            DomainErrorView::InvalidInput(s) => s,
        }
    }
}

impl DomainError {
    /// Builds an `InvalidInput` error from a message.
    pub fn invalid_input(msg: &str) -> (e: DomainError)
        ensures
            e@ == DomainErrorView::InvalidInput(msg@),
    {
        DomainError::InvalidInput(String::from_str(msg))
    }

    /// Renders the error as the text shown to a caller.
    pub fn to_string(&self) -> (s: String)
        ensures
            s@ == self@.message(),
    {
        match self {
            DomainError::InvalidIntensity(text) => {
                String::from_str("invalid intensity: ").concat(text.as_str())
            },
            DomainError::InvalidQuality => String::from_str("quality must be between 1 and 5"),
            DomainError::InvalidInput(msg) => msg.clone(),
        }
    }
}

} // verus!
