//! Session cookies and the administrator's login.

use crate::config::session_cookie_name;
use crate::security::csrf::CookieSpec;
use crate::text::str_eq;
use argon2::PasswordVerifier;
use vstd::prelude::*;
use vstd::string::StringExecFns;

verus! {

/// Identifier of the signed-in user.
pub type UserId = String;

/// What a login request carries.
#[derive(Debug)]
pub struct LoginPayload {
    pub email: String,
    pub password: String,
}

/// What checking a password against a stored hash gives.
#[derive(Clone, Copy, Debug, PartialEq, Eq, Structural)]
pub enum HashCheck {
    /// The stored text is no password hash.
    Malformed,
    /// The password does not give the stored hash.
    Mismatch,
    /// The password gives the stored hash.
    Match,
}

/// What `argon2` says of a password and a stored hash in PHC text form.
pub uninterp spec fn argon2_check(password: Seq<char>, hash: Seq<char>) -> HashCheck;

/// `PasswordHash::new` on the stored text, then
/// `PasswordVerifier::verify_password` of `Argon2::default()` on the
/// password's bytes. A text that does not parse is `Malformed`; a parsed hash
/// is `Match` where verification returns `Ok`, and `Mismatch` otherwise. The
/// contract only names the result.
#[verifier::external_body]
fn check_password(password: &str, hash: &str) -> (r: HashCheck)
    ensures
        r == argon2_check(password@, hash@),
{
    match argon2::PasswordHash::new(hash) {
        Ok(parsed) => match argon2::Argon2::default().verify_password(password.as_bytes(), &parsed) {
            Ok(()) => HashCheck::Match,
            Err(_) => HashCheck::Mismatch,
        },
        Err(_) => HashCheck::Malformed,
    }
}

/// Whether a login is accepted once the password has been checked: the
/// address is the administrator's, a hash is configured, and the password
/// gives it.
pub open spec fn login_accepted(
    email: Seq<char>,
    admin_email: Seq<char>,
    admin_hash: Seq<char>,
    check: HashCheck,
) -> bool {
    email == admin_email && admin_hash.len() > 0 && check == HashCheck::Match
}

/// Decides a login from the outcome of the password check.
pub fn login_decision(email: &str, admin_email: &str, admin_hash: &str, check: HashCheck) -> (r:
    bool)
    ensures
        r == login_accepted(email@, admin_email@, admin_hash@, check),
{
    if !str_eq(email, admin_email) {
        return false;
    }
    if str_eq(admin_hash, "") {
        proof {
            reveal_strlit("");
        }
        return false;
    }
    proof {
        reveal_strlit("");
        assert(admin_hash@.len() > 0) by {
            if admin_hash@.len() == 0 {
                assert(admin_hash@ =~= ""@);
            }
        }
    }
    match check {
        HashCheck::Match => true,
        _ => false,
    }
}

/// Verifies an address and a password against the configured administrator.
///
/// The login is accepted only where the address is the administrator's, a
/// password hash is configured, the hash is well formed, and the password
/// gives it. A wrong address or a missing hash is refused without the
/// password being looked at.
pub fn verify_login(email: &str, password: &str, admin_email: &str, admin_hash: &str) -> (r: bool)
    ensures
        r == login_accepted(email@, admin_email@, admin_hash@, argon2_check(password@, admin_hash@)),
{
    if !str_eq(email, admin_email) {
        return false;
    }
    if str_eq(admin_hash, "") {
        proof {
            reveal_strlit("");
        }
        return false;
    }
    login_decision(email, admin_email, admin_hash, check_password(password, admin_hash))
}

/// Whether a cookie is the session cookie for a user: named by the security
/// mode, for the whole site, hidden from scripts, `SameSite=Lax`.
pub open spec fn is_session_cookie(
    c: CookieSpec,
    value: Seq<char>,
    secure: bool,
    ttl_secs: Option<i64>,
) -> bool {
    &&& c.name@ == if secure {
        "__Host-session"@
    } else {
        "session"@
    }
    &&& c.value@ == value
    &&& c.path@ == "/"@
    &&& c.secure == secure
    &&& c.http_only
    &&& c.same_site_lax
    &&& c.max_age_secs == ttl_secs
}

/// The session cookie that signs a user in. It holds the user's identifier,
/// covers the whole site, is hidden from scripts and `SameSite=Lax`; it lives
/// for `ttl_secs` seconds where a lifetime is given.
pub fn create_session_cookie(user_id: &str, secure: bool, ttl_secs: Option<i64>) -> (c: CookieSpec)
    ensures
        is_session_cookie(c, user_id@, secure, ttl_secs),
{
    CookieSpec {
        name: String::from_str(session_cookie_name(secure)),
        value: String::from_str(user_id),
        path: String::from_str("/"),
        secure,
        http_only: true,
        same_site_lax: true,
        max_age_secs: ttl_secs,
    }
}

/// The cookie that removes the session cookie: same name and path, no value.
pub fn clear_session_cookie(secure: bool) -> (c: CookieSpec)
    ensures
        is_session_cookie(c, Seq::<char>::empty(), secure, None),
{
    CookieSpec {
        name: String::from_str(session_cookie_name(secure)),
        value: String::new(),
        path: String::from_str("/"),
        secure,
        http_only: true,
        same_site_lax: true,
        max_age_secs: None,
    }
}

/// The signed-in user, given the value of the session cookie where the
/// request carries a valid one.
pub fn current_user_from_cookie(session: Option<&str>) -> (user: Option<UserId>)
    ensures
        match session {
            Some(v) => user.is_some() && user.unwrap()@ == v@,
            None => user.is_none(),
        },
{
    match session {
        Some(v) => Some(String::from_str(v)),
        None => None,
    }
}

} // verus!
