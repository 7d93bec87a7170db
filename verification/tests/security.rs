use argon2::password_hash::{PasswordHasher, SaltString};
use sleep_api::auth::{
    clear_session_cookie, create_session_cookie, current_user_from_cookie, login_decision,
    verify_login, HashCheck,
};
use sleep_api::config::{
    admin_email, admin_password_hash, app_tz, cookie_secure, csrf_cookie_name, hsts_enabled,
    session_cookie_name, session_key, SessionKeySource,
};
use sleep_api::middleware::auth_layer::RequireSessionJson;
use sleep_api::security::csrf::{
    csrf_cookie_from, issue_csrf_cookie, percent_decode, CsrfGuard, CsrfRejection, RequestParts,
    CSRF_COOKIE,
};
use sleep_api::security::headers::security_headers;

fn parts(method: &str, site: Option<&str>, cookie: Option<&str>, header: Option<&str>) -> RequestParts {
    RequestParts {
        method: method.to_string(),
        sec_fetch_site: site.map(|s| s.to_string()),
        csrf_cookie: cookie.map(|s| s.to_string()),
        csrf_header: header.map(|s| s.to_string()),
    }
}

#[test]
fn percent_decoding() {
    assert_eq!(percent_decode("abc").as_deref(), Some("abc"));
    assert_eq!(percent_decode("").as_deref(), Some(""));
    assert_eq!(percent_decode("a%2Db%5Fc").as_deref(), Some("a-b_c"));
    assert_eq!(percent_decode("%2f%2F").as_deref(), Some("//"));
    assert_eq!(percent_decode("%C3%A9").as_deref(), Some("é"));
    assert_eq!(percent_decode("%2D").as_deref(), Some("-"));
    assert_eq!(percent_decode("100%"), None);
    assert_eq!(percent_decode("%2"), None);
    assert_eq!(percent_decode("%zz"), None);
    assert_eq!(percent_decode("%2g"), None);
    assert_eq!(percent_decode("%FF"), None);
    assert_eq!(percent_decode("%+1"), None);
}

#[test]
fn csrf_guard_lets_reading_requests_pass() {
    for method in ["GET", "HEAD", "OPTIONS", "post"] {
        assert!(CsrfGuard::from_request_parts(&parts(method, Some("cross-site"), None, None)).is_ok());
    }
}

#[test]
fn csrf_guard_checks_in_order() {
    let r = CsrfGuard::from_request_parts(&parts("POST", Some("cross-site"), None, None));
    assert_eq!(r, Err(CsrfRejection::CrossSite));
    let r = CsrfGuard::from_request_parts(&parts("PUT", Some("none"), Some("t"), Some("t")));
    assert_eq!(r, Err(CsrfRejection::CrossSite));
    let r = CsrfGuard::from_request_parts(&parts("DELETE", Some("Same-Origin"), None, Some("t")));
    assert_eq!(r, Err(CsrfRejection::MissingCookie));
    let r = CsrfGuard::from_request_parts(&parts("POST", None, Some("t"), None));
    assert_eq!(r, Err(CsrfRejection::MissingHeaderToken));
    let r = CsrfGuard::from_request_parts(&parts("POST", Some("same-site"), Some("t"), Some("u")));
    assert_eq!(r, Err(CsrfRejection::TokenMismatch));
    let r = CsrfGuard::from_request_parts(&parts("POST", Some("SAME-SITE"), Some("t"), Some("t")));
    assert_eq!(r, Ok(CsrfGuard));
}

#[test]
fn csrf_header_may_be_percent_encoded() {
    let cookie = "ab-cd_ef";
    let r = CsrfGuard::from_request_parts(&parts("POST", None, Some(cookie), Some("ab%2Dcd%5Fef")));
    assert_eq!(r, Ok(CsrfGuard));
    // a header that does not decode is compared as it stands
    let r = CsrfGuard::from_request_parts(&parts("POST", None, Some("50%"), Some("50%")));
    assert_eq!(r, Ok(CsrfGuard));
    let r = CsrfGuard::from_request_parts(&parts("POST", None, Some("a%2Db"), Some("a%2Db")));
    assert_eq!(r, Err(CsrfRejection::TokenMismatch));
}

#[test]
fn csrf_rejection_details() {
    assert_eq!(CsrfRejection::CrossSite.detail(), "csrf: cross-site request rejected");
    assert_eq!(CsrfRejection::MissingCookie.detail(), "csrf: missing cookie");
    assert_eq!(CsrfRejection::MissingHeaderToken.detail(), "csrf: missing header token");
    assert_eq!(CsrfRejection::TokenMismatch.detail(), "csrf: token mismatch");
}

#[test]
fn csrf_cookie_carries_a_fresh_token() {
    let a = issue_csrf_cookie().expect("random bytes");
    let b = issue_csrf_cookie().expect("random bytes");
    assert_eq!(a.name, CSRF_COOKIE);
    assert_eq!(a.name, "__Host-csrf");
    assert_eq!(a.path, "/");
    assert!(a.secure && !a.http_only && a.same_site_lax);
    assert_eq!(a.max_age_secs, None);
    // 32 bytes are 43 characters of unpadded base64
    assert_eq!(a.value.len(), 43);
    assert!(a.value.chars().all(|c| c.is_ascii_alphanumeric() || c == '-' || c == '_'));
    assert_ne!(a.value, b.value);
}

#[test]
fn security_header_table() {
    let plain = security_headers(false);
    assert_eq!(plain.len(), 4);
    assert_eq!((plain[0].name, plain[0].value), ("x-content-type-options", "nosniff"));
    assert_eq!((plain[1].name, plain[1].value), ("x-frame-options", "DENY"));
    assert_eq!((plain[2].name, plain[2].value), ("referrer-policy", "strict-origin-when-cross-origin"));
    assert_eq!(
        (plain[3].name, plain[3].value),
        ("content-security-policy", "default-src 'self'; script-src 'self' 'unsafe-inline'")
    );
    let strict = security_headers(true);
    assert_eq!(strict.len(), 5);
    assert_eq!(
        (strict[4].name, strict[4].value),
        ("strict-transport-security", "max-age=31536000; includeSubDomains")
    );
}

#[test]
fn session_guard() {
    let ok = RequireSessionJson::from_request_parts(Some("admin".to_string())).expect("signed in");
    assert_eq!(ok._user_id, "admin");
    let err = RequireSessionJson::from_request_parts(None).expect_err("no session");
    assert_eq!(err.error(), "unauthorized");
}

#[test]
fn session_cookies() {
    let c = create_session_cookie("admin", true, Some(3600));
    assert_eq!((c.name.as_str(), c.value.as_str(), c.path.as_str()), ("__Host-session", "admin", "/"));
    assert!(c.secure && c.http_only && c.same_site_lax);
    assert_eq!(c.max_age_secs, Some(3600));
    let c = create_session_cookie("admin", false, None);
    assert_eq!(c.name, "session");
    assert!(!c.secure);
    assert_eq!(c.max_age_secs, None);
    let c = clear_session_cookie(true);
    assert_eq!((c.name.as_str(), c.value.as_str(), c.path.as_str()), ("__Host-session", "", "/"));
    assert_eq!(current_user_from_cookie(Some("admin")).as_deref(), Some("admin"));
    assert_eq!(current_user_from_cookie(None), None);
}

#[test]
fn login_is_checked_against_the_stored_hash() {
    let salt = SaltString::from_b64("c29tZXNhbHRzb21lc2FsdA").expect("salt");
    let hash = argon2::Argon2::default()
        .hash_password(b"password123", &salt)
        .expect("hashing")
        .to_string();
    assert!(verify_login("admin@example.com", "password123", "admin@example.com", &hash));
    assert!(!verify_login("admin@example.com", "password124", "admin@example.com", &hash));
    assert!(!verify_login("other@example.com", "password123", "admin@example.com", &hash));
    assert!(!verify_login("admin@example.com", "password123", "admin@example.com", ""));
    assert!(!verify_login("admin@example.com", "password123", "admin@example.com", "not a hash"));
    assert!(!verify_login("admin@example.com", &hash, "admin@example.com", &hash));
}

#[test]
fn login_decision_from_the_check() {
    assert!(login_decision("a@b", "a@b", "$argon2id$x", HashCheck::Match));
    assert!(!login_decision("a@b", "a@b", "$argon2id$x", HashCheck::Mismatch));
    assert!(!login_decision("a@b", "a@b", "$argon2id$x", HashCheck::Malformed));
    assert!(!login_decision("a@b", "a@b", "", HashCheck::Match));
    assert!(!login_decision("a@c", "a@b", "$argon2id$x", HashCheck::Match));
}

#[test]
fn zone_in_force() {
    assert_eq!(app_tz(None).name(), chrono_tz::Asia::Tokyo.name());
    assert_eq!(app_tz(Some("Asia/Tokyo")).name(), "Asia/Tokyo");
    assert_eq!(app_tz(Some("America/New_York")).name(), chrono_tz::America::New_York.name());
    assert_eq!(app_tz(Some("Not/AZone")).name(), "Asia/Tokyo");
    assert_eq!(app_tz(Some("")).name(), "Asia/Tokyo");
}

#[test]
fn settings_and_defaults() {
    assert_eq!(admin_email(None), "admin@example.com");
    assert_eq!(admin_email(Some("me@example.org".to_string())), "me@example.org");
    assert_eq!(admin_password_hash(None), "");
    assert_eq!(admin_password_hash(Some("$argon2id$x".to_string())), "$argon2id$x");
    assert!(!hsts_enabled(None));
    assert!(hsts_enabled(Some("1")));
    assert!(hsts_enabled(Some("true")));
    assert!(hsts_enabled(Some("TRUE")));
    assert!(hsts_enabled(Some("True")));
    assert!(!hsts_enabled(Some("0")));
    assert!(!hsts_enabled(Some("yes")));
    assert!(!hsts_enabled(Some("true ")));
    assert!(!hsts_enabled(Some("")));
    assert!(cookie_secure(None));
    assert!(cookie_secure(Some("1")));
    assert!(!cookie_secure(Some("0")));
    assert_eq!(session_cookie_name(true), "__Host-session");
    assert_eq!(session_cookie_name(false), "session");
    assert_eq!(csrf_cookie_name(true), "__Host-csrf");
    assert_eq!(csrf_cookie_name(false), "csrf");
}

#[test]
fn session_key_source() {
    match session_key(Some("aGVsbG8gd29ybGQ=")) {
        SessionKeySource::Derived(bytes) => assert_eq!(bytes, b"hello world".to_vec()),
        SessionKeySource::Random => panic!("a valid secret must be used"),
    }
    assert!(matches!(session_key(Some("not base64!")), SessionKeySource::Random));
    assert!(matches!(session_key(Some("aGVsbG8gd29ybGQ")), SessionKeySource::Random));
    assert!(matches!(session_key(None), SessionKeySource::Random));
}

#[test]
fn csrf_cookie_is_made_from_the_bytes_given() {
    assert!(csrf_cookie_from(None).is_none());
    let c = csrf_cookie_from(Some([0u8; 32])).expect("bytes were given");
    assert_eq!(c.name, "__Host-csrf");
    assert_eq!(c.value, "A".repeat(43));
    assert_eq!(c.path, "/");
    assert!(c.secure && !c.http_only && c.same_site_lax);
    assert_eq!(c.max_age_secs, None);
    let c = csrf_cookie_from(Some([0xffu8; 32])).expect("bytes were given");
    assert_eq!(c.value, format!("{}8", "_".repeat(42)));
}
