//! Double-submit CSRF protection.
//!
//! A mutating request (POST, PUT, DELETE) must carry the CSRF cookie and an
//! `X-CSRF-Token` header with the same value; the header may arrive
//! percent-encoded. Where the browser says through `Sec-Fetch-Site` that the
//! request comes from another site, it is rejected before the tokens are
//! looked at.

use crate::text::{eq_ignore_ascii_case, eq_ignore_ascii_case_spec, str_eq, string_from_utf8};
use base64::Engine;
use rand::RngCore;
use vstd::prelude::*;
use vstd::string::StringExecFns;
use vstd::utf8::{decode_utf8, encode_utf8, valid_utf8};

verus! {

/// Name of the CSRF cookie.
pub const CSRF_COOKIE: &'static str = "__Host-csrf";

/// Number of random bytes in a CSRF token.
pub const CSRF_TOKEN_BYTES: usize = 32;

/// Status of a response that rejects a request for a CSRF failure.
pub const FORBIDDEN_STATUS: u16 = 403;

/// What a guard has to see of a request.
#[derive(Debug)]
pub struct RequestParts {
    /// The request method, in capitals.
    pub method: String,
    /// Value of the `Sec-Fetch-Site` header, where it is present and is text.
    pub sec_fetch_site: Option<String>,
    /// Value of the CSRF cookie, where it is present.
    pub csrf_cookie: Option<String>,
    /// Value of the `X-CSRF-Token` header, where it is present and is text.
    pub csrf_header: Option<String>,
}

/// Why a request was rejected.
#[derive(Clone, Copy, Debug, PartialEq, Eq, Structural)]
pub enum CsrfRejection {
    CrossSite,
    MissingCookie,
    MissingHeaderToken,
    TokenMismatch,
}

/// Proof that a request passed the CSRF check.
#[derive(Clone, Copy, Debug, PartialEq, Eq, Structural)]
pub struct CsrfGuard;

/// The attributes of a cookie to set or to remove.
#[derive(Debug)]
pub struct CookieSpec {
    pub name: String,
    pub value: String,
    pub path: String,
    pub secure: bool,
    pub http_only: bool,
    pub same_site_lax: bool,
    /// Lifetime in seconds, where the cookie is to outlive the session.
    pub max_age_secs: Option<i64>,
}

/// Text that `base64` gives bytes under its URL-safe alphabet without padding.
pub uninterp spec fn url_safe_no_pad_text(bytes: Seq<u8>) -> Seq<char>;

/// `RngCore::try_fill_bytes` of `rand::rngs::OsRng` on 32 bytes; `None` where
/// the operating system gives no random bytes. Nothing is claimed of the
/// bytes.
#[verifier::external_body]
fn random_token_bytes() -> (r: Option<[u8; 32]>) {
    let mut bytes = [0u8; 32];
    match rand::rngs::OsRng.try_fill_bytes(&mut bytes) {
        Ok(()) => Some(bytes),
        Err(_) => None,
    }
}

/// `Engine::encode` of `base64::engine::general_purpose::URL_SAFE_NO_PAD`.
/// The contract only names the result.
#[verifier::external_body]
fn encode_url_safe(bytes: &[u8; 32]) -> (s: String)
    ensures
        s@ == url_safe_no_pad_text(bytes@),
{
    base64::engine::general_purpose::URL_SAFE_NO_PAD.encode(bytes)
}

/// Value of a hexadecimal digit given as an ASCII byte.
pub open spec fn hex_value(b: u8) -> Option<int> {
    if 0x30 <= b <= 0x39 {
        Some(b - 0x30)
    } else if 0x61 <= b <= 0x66 {
        Some(b - 0x61 + 10)
    } else if 0x41 <= b <= 0x46 {
        Some(b - 0x41 + 10)
    } else {
        None
    }
}

/// A sequence put in front of an optional rest.
pub open spec fn prepend(head: Seq<u8>, rest: Option<Seq<u8>>) -> Option<Seq<u8>> {
    match rest {
        Some(tail) => Some(head + tail),
        None => None,
    }
}

/// The bytes that percent-decoding gives from position `i` on: a `%` and the
/// two hexadecimal digits after it stand for the byte with that value; any
/// other byte stands for itself. A `%` with fewer than two bytes after it, or
/// with one of the two that is no hexadecimal digit, spoils the whole text.
pub open spec fn decode_from(s: Seq<u8>, i: int) -> Option<Seq<u8>>
    decreases s.len() - i,
{
    if i < 0 || i >= s.len() {
        Some(Seq::<u8>::empty())
    } else if s[i] == 0x25 {
        if i + 2 >= s.len() {
            None
        } else {
            match (hex_value(s[i + 1]), hex_value(s[i + 2])) {
                (Some(high), Some(low)) => prepend(
                    seq![(high * 16 + low) as u8],
                    decode_from(s, i + 3),
                ),
                _ => None,
            }
        }
    } else {
        prepend(seq![s[i]], decode_from(s, i + 1))
    }
}

/// The text that percent-decoding gives: the decoded bytes read as UTF-8,
/// where decoding succeeds and the bytes are valid UTF-8.
pub open spec fn percent_decode_spec(text: Seq<char>) -> Option<Seq<char>> {
    match decode_from(encode_utf8(text), 0) {
        Some(bytes) => if valid_utf8(bytes) {
            Some(decode_utf8(bytes))
        } else {
            None
        },
        None => None,
    }
}

/// Whether a method changes state: POST, PUT or DELETE.
pub open spec fn is_mutating(method: Seq<char>) -> bool {
    method == "POST"@ || method == "PUT"@ || method == "DELETE"@
}

/// Whether a `Sec-Fetch-Site` value names the same origin or the same site,
/// in any case of letters.
pub open spec fn is_same_site(value: Seq<char>) -> bool {
    eq_ignore_ascii_case_spec(encode_utf8(value), encode_utf8("same-origin"@))
        || eq_ignore_ascii_case_spec(encode_utf8(value), encode_utf8("same-site"@))
}

/// The token that a header value stands for: its percent-decoding, or the
/// value itself where that fails.
pub open spec fn header_token(raw: Seq<char>) -> Seq<char> {
    match percent_decode_spec(raw) {
        Some(decoded) => decoded,
        None => raw,
    }
}

/// The verdict on a request: nothing to object, or the first failed check.
pub open spec fn csrf_verdict(
    method: Seq<char>,
    sec_fetch_site: Option<Seq<char>>,
    cookie: Option<Seq<char>>,
    header: Option<Seq<char>>,
) -> Option<CsrfRejection> {
    if !is_mutating(method) {
        None
    } else if sec_fetch_site.is_some() && !is_same_site(sec_fetch_site.unwrap()) {
        Some(CsrfRejection::CrossSite)
    } else if cookie.is_none() {
        Some(CsrfRejection::MissingCookie)
    } else if header.is_none() {
        Some(CsrfRejection::MissingHeaderToken)
    } else if header_token(header.unwrap()) != cookie.unwrap() {
        Some(CsrfRejection::TokenMismatch)
    } else {
        None
    }
}

/// View of an optional text.
pub open spec fn text_of(s: Option<String>) -> Option<Seq<char>> {
    match s {
        Some(t) => Some(t@),
        None => None,
    }
}

impl CsrfRejection {
    /// The `detail` field of the response that reports the rejection.
    pub open spec fn detail_spec(self) -> Seq<char> {
        match self {
            CsrfRejection::CrossSite => "csrf: cross-site request rejected"@,
            CsrfRejection::MissingCookie => "csrf: missing cookie"@,
            CsrfRejection::MissingHeaderToken => "csrf: missing header token"@,
            CsrfRejection::TokenMismatch => "csrf: token mismatch"@,
        }
    }

    /// The `detail` field of the response that reports the rejection; its
    /// status is 403 and its `error` field is `forbidden`.
    pub fn detail(&self) -> (s: &'static str)
        ensures
            s@ == self.detail_spec(),
    {
        match self {
            CsrfRejection::CrossSite => "csrf: cross-site request rejected",
            CsrfRejection::MissingCookie => "csrf: missing cookie",
            CsrfRejection::MissingHeaderToken => "csrf: missing header token",
            CsrfRejection::TokenMismatch => "csrf: token mismatch",
        }
    }
}

fn hex_digit(b: u8) -> (r: Option<u8>)
    ensures
        match r {
            Some(v) => hex_value(b) == Some(v as int) && v < 16,
            None => hex_value(b).is_none(),
        },
{
    if 0x30 <= b && b <= 0x39 {
        Some(b - 0x30)
    } else if 0x61 <= b && b <= 0x66 {
        Some(b - 0x61 + 10)
    } else if 0x41 <= b && b <= 0x46 {
        Some(b - 0x41 + 10)
    } else {
        None
    }
}

/// Decodes the percent-escapes of a text.
///
/// Every `%` must be followed by two hexadecimal digits, and by at least
/// those two bytes; the three bytes stand for the byte with that value. Any
/// other byte stands for itself. Returns `None` where a `%` is followed by
/// fewer than two bytes or by a byte that is no hexadecimal digit, or where
/// the decoded bytes are not valid UTF-8.
pub fn percent_decode(s: &str) -> (r: Option<String>)
    ensures
        text_of(r) == percent_decode_spec(s@),
{
    let bytes = s.as_bytes();
    let mut out: Vec<u8> = Vec::new();
    let mut i: usize = 0;
    while i < bytes.len()
        invariant
            i <= bytes.len(),
            bytes@ == encode_utf8(s@),
            decode_from(bytes@, 0) == prepend(out@, decode_from(bytes@, i as int)),
        decreases bytes.len() - i,
    {
        let ghost before = out@;
        let ghost rest_here = decode_from(bytes@, i as int);
        if bytes[i] == 0x25 {
            if bytes.len() - i <= 2 {
                return None;
            }
            let high = match hex_digit(bytes[i + 1]) {
                Some(v) => v,
                None => {
                    return None;
                },
            };
            let low = match hex_digit(bytes[i + 2]) {
                Some(v) => v,
                None => {
                    return None;
                },
            };
            let value: u8 = high * 16 + low;
            out.push(value);
            proof {
                let tail = decode_from(bytes@, i + 3);
                assert(rest_here == prepend(seq![value], tail));
                if tail.is_some() {
                    assert(before + (seq![value] + tail.unwrap()) =~= out@ + tail.unwrap());
                }
            }
            i += 3;
        } else {
            let b = bytes[i];
            out.push(b);
            proof {
                let tail = decode_from(bytes@, i + 1);
                assert(rest_here == prepend(seq![b], tail));
                if tail.is_some() {
                    assert(before + (seq![b] + tail.unwrap()) =~= out@ + tail.unwrap());
                }
            }
            i += 1;
        }
    }
    proof {
        assert(out@ + Seq::<u8>::empty() =~= out@);
    }
    let ghost decoded = out@;
    match string_from_utf8(out) {
        Some(text) => {
            proof {
                vstd::utf8::encode_utf8_decode_utf8(text@);
            }
            Some(text)
        },
        None => None,
    }
}

impl CsrfGuard {
    /// Checks a request against the double-submit rule.
    ///
    /// A request whose method is not POST, PUT or DELETE passes. Otherwise, in
    /// this order: a `Sec-Fetch-Site` value other than `same-origin` or
    /// `same-site` (in any case of letters) is rejected as cross-site; a
    /// missing cookie and a missing header are rejected; and the header,
    /// percent-decoded where that succeeds, must equal the cookie.
    pub fn from_request_parts(parts: &RequestParts) -> (r: Result<CsrfGuard, CsrfRejection>)
        ensures
            match csrf_verdict(
                parts.method@,
                text_of(parts.sec_fetch_site),
                text_of(parts.csrf_cookie),
                text_of(parts.csrf_header),
            ) {
                Some(why) => r == Err::<CsrfGuard, CsrfRejection>(why),
                None => r.is_ok(),
            },
    {
        let method = parts.method.as_str();
        if !(str_eq(method, "POST") || str_eq(method, "PUT") || str_eq(method, "DELETE")) {
            return Ok(CsrfGuard);
        }
        match &parts.sec_fetch_site {
            Some(v) => {
                if !eq_ignore_ascii_case(v.as_str(), "same-origin") && !eq_ignore_ascii_case(
                    v.as_str(),
                    "same-site",
                ) {
                    return Err(CsrfRejection::CrossSite);
                }
            },
            None => {},
        }
        let cookie = match &parts.csrf_cookie {
            Some(c) => c,
            None => {
                return Err(CsrfRejection::MissingCookie);
            },
        };
        let raw = match &parts.csrf_header {
            Some(h) => h,
            None => {
                return Err(CsrfRejection::MissingHeaderToken);
            },
        };
        let same = match percent_decode(raw.as_str()) {
            Some(token) => str_eq(token.as_str(), cookie.as_str()),
            None => str_eq(raw.as_str(), cookie.as_str()),
        };
        if same {
            Ok(CsrfGuard)
        } else {
            Err(CsrfRejection::TokenMismatch)
        }
    }
}

/// Whether a cookie is a CSRF cookie as [`issue_csrf_cookie`] makes it: named
/// `__Host-csrf`, for the whole site, secure, readable by scripts, `SameSite=Lax`,
/// for the session, its value the URL-safe base64 text of 32 bytes.
pub open spec fn is_csrf_cookie(c: CookieSpec) -> bool {
    &&& c.name@ == CSRF_COOKIE@
    &&& c.path@ == "/"@
    &&& c.secure
    &&& !c.http_only
    &&& c.same_site_lax
    &&& c.max_age_secs.is_none()
    &&& exists|bytes: Seq<u8>|
        bytes.len() == CSRF_TOKEN_BYTES && c.value@ == #[trigger] url_safe_no_pad_text(bytes)
}

/// Makes a CSRF cookie with a fresh random token: 32 bytes from the operating
/// system, written in URL-safe base64 without padding. Returns `None` where
/// the operating system gives no random bytes.
pub fn issue_csrf_cookie() -> (r: Option<CookieSpec>)
    ensures
        r.is_some() ==> is_csrf_cookie(r.unwrap()),
{
    csrf_cookie_from(random_token_bytes())
}

/// Whether a cookie is the CSRF cookie for the given token bytes: named
/// `__Host-csrf`, for the whole site, secure, readable by scripts,
/// `SameSite=Lax`, for the session, its value the URL-safe base64 text of
/// exactly these bytes.
pub open spec fn is_csrf_cookie_of(c: CookieSpec, bytes: Seq<u8>) -> bool {
    &&& c.name@ == CSRF_COOKIE@
    &&& c.path@ == "/"@
    &&& c.secure
    &&& !c.http_only
    &&& c.same_site_lax
    &&& c.max_age_secs.is_none()
    &&& c.value@ == url_safe_no_pad_text(bytes)
}

/// Makes the CSRF cookie from what the operating system gave: the cookie
/// whose token is the URL-safe base64 text of the 32 bytes, or `None` where
/// no bytes were given.
pub fn csrf_cookie_from(bytes: Option<[u8; 32]>) -> (r: Option<CookieSpec>)
    ensures
        match bytes {
            Some(b) => r.is_some() && is_csrf_cookie_of(r.unwrap(), b@) && is_csrf_cookie(
                r.unwrap(),
            ),
            None => r.is_none(),
        },
{
    match bytes {
        Some(b) => {
            let token = encode_url_safe(&b);
            assert(b@.len() == CSRF_TOKEN_BYTES);
            Some(
                CookieSpec {
                    name: String::from_str(CSRF_COOKIE),
                    value: token,
                    path: String::from_str("/"),
                    secure: true,
                    http_only: false,
                    same_site_lax: true,
                    max_age_secs: None,
                },
            )
        },
        None => None,
    }
}

} // verus!
