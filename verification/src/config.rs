//! Configuration values and their defaults.
//!
//! The service reads its settings from the environment. Each function here
//! takes the raw setting, absent or present, and decides the value in force.

use crate::text::{eq_ignore_ascii_case, eq_ignore_ascii_case_spec, str_eq};
use crate::time::{known_zone, Zone};
use base64::Engine;
use vstd::prelude::*;
use vstd::string::StringExecFns;
use vstd::utf8::encode_utf8;

verus! {

/// Zone in force where none is configured.
pub const DEFAULT_TZ: &'static str = "Asia/Tokyo";

/// Administrator address in force where none is configured.
pub const DEFAULT_ADMIN_EMAIL: &'static str = "admin@example.com";

/// The bytes that `base64` reads from a text under its standard alphabet with
/// padding, if the text is such an encoding.
pub uninterp spec fn standard_base64_bytes(text: Seq<char>) -> Option<Seq<u8>>;

/// `Engine::decode` of `base64::engine::general_purpose::STANDARD`, a decode
/// error handed back as `None`. The contract only names the result.
#[verifier::external_body]
fn decode_standard(text: &str) -> (r: Option<Vec<u8>>)
    ensures
        match r {
            Some(bytes) => standard_base64_bytes(text@) == Some(bytes@),
            None => standard_base64_bytes(text@).is_none(),
        },
{
    base64::engine::general_purpose::STANDARD.decode(text.as_bytes()).ok()
}

/// Whether a flag setting switches the flag on: it is `1`, or `true` in any
/// case of letters.
pub open spec fn flag_is_on(value: Seq<char>) -> bool {
    value == "1"@ || eq_ignore_ascii_case_spec(encode_utf8(value), encode_utf8("true"@))
}

/// Where the key that protects session cookies comes from.
#[derive(Debug)]
pub enum SessionKeySource {
    /// Derive the key from these bytes, the decoded secret.
    Derived(Vec<u8>),
    /// No usable secret is configured: generate a random key.
    Random,
}

/// The name of the zone in force: the configured one where it names a zone,
/// and `Asia/Tokyo` otherwise.
pub open spec fn zone_name_in_force(value: Option<Seq<char>>) -> Seq<char> {
    match value {
        Some(name) => if known_zone(name) {
            name
        } else {
            DEFAULT_TZ@
        },
        None => DEFAULT_TZ@,
    }
}

/// View of an optional text slice.
pub open spec fn slice_text(s: Option<&str>) -> Option<Seq<char>> {
    match s {
        Some(t) => Some(t@),
        None => None,
    }
}

fn flag_on(value: &str) -> (r: bool)
    ensures
        r == flag_is_on(value@),
{
    str_eq(value, "1") || eq_ignore_ascii_case(value, "true")
}

/// The zone in which local times are read: the one named by the setting, or
/// `Asia/Tokyo` where the setting is absent or names no known zone.
pub fn app_tz(value: Option<&str>) -> (tz: Zone)
    ensures
        tz@ == zone_name_in_force(slice_text(value)),
{
    match value {
        Some(name) => match Zone::parse(name) {
            Some(zone) => zone,
            None => Zone::tokyo(),
        },
        None => Zone::tokyo(),
    }
}

/// The administrator's address: the setting, or `admin@example.com`.
pub fn admin_email(value: Option<String>) -> (email: String)
    ensures
        email@ == match value {
            Some(v) => v@,
            None => DEFAULT_ADMIN_EMAIL@,
        },
{
    match value {
        Some(v) => v,
        None => String::from_str(DEFAULT_ADMIN_EMAIL),
    }
}

/// The administrator's password hash: the setting, or the empty text, with
/// which no login succeeds.
pub fn admin_password_hash(value: Option<String>) -> (hash: String)
    ensures
        hash@ == match value {
            Some(v) => v@,
            None => Seq::<char>::empty(),
        },
{
    match value {
        Some(v) => v,
        None => String::new(),
    }
}

/// Where the session key comes from: derived from the secret where one is
/// set and is standard base64, random otherwise.
pub fn session_key(secret: Option<&str>) -> (r: SessionKeySource)
    ensures
        match r {
            SessionKeySource::Derived(bytes) => secret.is_some() && standard_base64_bytes(
                secret.unwrap()@,
            ) == Some(bytes@),
            SessionKeySource::Random => secret.is_none() || standard_base64_bytes(
                secret.unwrap()@,
            ).is_none(),
        },
{
    match secret {
        Some(text) => match decode_standard(text) {
            Some(bytes) => SessionKeySource::Derived(bytes),
            None => SessionKeySource::Random,
        },
        None => SessionKeySource::Random,
    }
}

/// Whether strict transport security is switched on: only where the setting
/// is `1`, or `true` in any case of letters.
pub fn hsts_enabled(value: Option<&str>) -> (r: bool)
    ensures
        r == match value {
            Some(v) => flag_is_on(v@),
            None => false,
        },
{
    match value {
        Some(v) => flag_on(v),
        None => false,
    }
}

/// Whether cookies are marked secure: unless the setting is present and is
/// neither `1` nor `true`.
pub fn cookie_secure(value: Option<&str>) -> (r: bool)
    ensures
        r == match value {
            Some(v) => flag_is_on(v@),
            None => true,
        },
{
    match value {
        Some(v) => flag_on(v),
        None => true,
    }
}

/// Name of the session cookie: with the `__Host-` prefix where cookies are secure.
pub fn session_cookie_name(secure: bool) -> (name: &'static str)
    ensures
        name@ == if secure {
            "__Host-session"@
        } else {
            "session"@
        },
{
    if secure {
        "__Host-session"
    } else {
        "session"
    }
}

/// Name of the CSRF cookie: with the `__Host-` prefix where cookies are secure.
pub fn csrf_cookie_name(secure: bool) -> (name: &'static str)
    ensures
        name@ == if secure {
            "__Host-csrf"@
        } else {
            "csrf"@
        },
{
    if secure {
        "__Host-csrf"
    } else {
        "csrf"
    }
}

} // verus!
