//! The guard that requires a signed-in user.

use crate::auth::UserId;
use vstd::prelude::*;

verus! {

/// Status of the response to a request without a session.
pub const UNAUTHORIZED_STATUS: u16 = 401;

/// Proof that a request carries a valid session.
#[derive(Debug)]
pub struct RequireSessionJson {
    pub _user_id: UserId,
}

/// The rejection of a request without a session: status 401 and a body whose
/// `error` field is `unauthorized`.
#[derive(Clone, Copy, Debug, PartialEq, Eq, Structural)]
pub struct Unauthorized;

impl Unauthorized {
    /// Value of the `error` field of the response body.
    pub fn error(&self) -> (s: &'static str)
        ensures
            s@ == "unauthorized"@,
    {
        "unauthorized"
    }
}

impl RequireSessionJson {
    /// Admits a request exactly when it carries a user: `user` is the user
    /// read from the session cookie, absent where the cookie is missing or
    /// does not decrypt.
    pub fn from_request_parts(user: Option<UserId>) -> (r: Result<RequireSessionJson, Unauthorized>)
        ensures
            match user {
                Some(id) => r.is_ok() && r.unwrap()._user_id == id,
                None => r.is_err(),
            },
    {
        match user {
            Some(id) => Ok(RequireSessionJson { _user_id: id }),
            None => Err(Unauthorized),
        }
    }
}

} // verus!
