//! Errors as the service reports them.

use crate::domain::DomainError;
use vstd::prelude::*;
use vstd::string::StringExecFns;

verus! {

/// Failure of a request.
#[derive(Debug)]
pub enum ApiError {
    /// The store failed; holds the store's own description.
    Db(String),
    /// Nothing is stored under the requested key.
    NotFound,
    /// The request was rejected by validation; holds the reason.
    InvalidInput(String),
}

/// Mathematical value of an [`ApiError`].
pub enum ApiErrorView {
    Db(Seq<char>),
    NotFound,
    InvalidInput(Seq<char>),
}

impl View for ApiError {
    type V = ApiErrorView;

    open spec fn view(&self) -> ApiErrorView {
        match self {
            ApiError::Db(s) => ApiErrorView::Db(s@),
            ApiError::NotFound => ApiErrorView::NotFound,
            ApiError::InvalidInput(s) => ApiErrorView::InvalidInput(s@),
        }
    }
}

impl ApiErrorView {
    /// HTTP status of the error: 500, 404 or 400.
    pub open spec fn status(self) -> int {
        match self {
            ApiErrorView::Db(_) => 500,
            ApiErrorView::NotFound => 404,
            ApiErrorView::InvalidInput(_) => 400,
        }
    }

    /// Value of the `error` field of the response body.
    pub open spec fn label(self) -> Seq<char> {
        match self {
            ApiErrorView::Db(_) => "database error"@,
            ApiErrorView::NotFound => "not found"@,
            ApiErrorView::InvalidInput(_) => "invalid input"@,
        }
    }

    /// Value of the `detail` field of the response body, where there is one.
    pub open spec fn detail(self) -> Option<Seq<char>> {
        match self {
            ApiErrorView::Db(s) => Some(s),
            ApiErrorView::NotFound => None,
            ApiErrorView::InvalidInput(s) => Some(s),
        }
    }

    /// The text a reader of the error sees.
    pub open spec fn message(self) -> Seq<char> {
        match self {
            ApiErrorView::Db(s) => "database error: "@ + s,
            ApiErrorView::NotFound => "not found"@,
            ApiErrorView::InvalidInput(s) => "invalid input: "@ + s,
        }
    }
}

/// What a response to a failed request holds: the status and the two fields of its body.
#[derive(Debug)]
pub struct ErrorResponse {
    pub status: u16,
    pub error: &'static str,
    pub detail: Option<String>,
}

impl ApiError {
    /// Builds an `InvalidInput` error from a reason.
    pub fn invalid_input(msg: &str) -> (e: ApiError)
        ensures
            e@ == ApiErrorView::InvalidInput(msg@),
    {
        ApiError::InvalidInput(String::from_str(msg))
    }

    /// The response that reports the error: 500 with the store's description
    /// for a store failure, 404 without detail for a missing record, 400 with
    /// the reason for rejected input.
    pub fn into_response(&self) -> (r: ErrorResponse)
        ensures
            r.status == self@.status(),
            r.error@ == self@.label(),
            match r.detail {
                Some(d) => self@.detail() == Some(d@),
                None => self@.detail().is_none(),
            },
    {
        match self {
            ApiError::Db(e) => ErrorResponse {
                status: 500,
                error: "database error",
                detail: Some(e.clone()),
            },
            ApiError::NotFound => ErrorResponse { status: 404, error: "not found", detail: None },
            ApiError::InvalidInput(msg) => ErrorResponse {
                status: 400,
                error: "invalid input",
                detail: Some(msg.clone()),
            },
        }
    }

    /// A domain error is rejected input; its text becomes the reason.
    pub fn from_domain(err: &DomainError) -> (e: ApiError)
        ensures
            e@ == ApiErrorView::InvalidInput(err@.message()),
    {
        ApiError::InvalidInput(err.to_string())
    }

    /// Renders the error as text.
    pub fn to_string(&self) -> (s: String)
        ensures
            s@ == self@.message(),
    {
        match self {
            ApiError::Db(e) => String::from_str("database error: ").concat(e.as_str()),
            ApiError::NotFound => String::from_str("not found"),
            ApiError::InvalidInput(msg) => String::from_str("invalid input: ").concat(
                msg.as_str(),
            ),
        }
    }
}

} // verus!
