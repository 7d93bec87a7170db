//! Security headers set on every response.

use vstd::prelude::*;

verus! {

/// A response header to set where the response does not already carry it.
#[derive(Clone, Copy, Debug)]
pub struct SecurityHeader {
    pub name: &'static str,
    pub value: &'static str,
}

/// The headers, in the order in which they are applied.
pub open spec fn security_headers_spec(enable_hsts: bool) -> Seq<(Seq<char>, Seq<char>)> {
    let common = seq![
        ("x-content-type-options"@, "nosniff"@),
        ("x-frame-options"@, "DENY"@),
        ("referrer-policy"@, "strict-origin-when-cross-origin"@),
        ("content-security-policy"@, "default-src 'self'; script-src 'self' 'unsafe-inline'"@),
    ];
    if enable_hsts {
        common.push(("strict-transport-security"@, "max-age=31536000; includeSubDomains"@))
    } else {
        common
    }
}

/// The name and value of each header, in order.
pub open spec fn pairs_of(headers: Seq<SecurityHeader>) -> Seq<(Seq<char>, Seq<char>)> {
    headers.map_values(|h: SecurityHeader| (h.name@, h.value@))
}

/// The security headers of every response: content-type sniffing off, no
/// framing, a strict referrer policy and a content security policy; with
/// `enable_hsts`, strict transport security for one year as the fifth.
pub fn security_headers(enable_hsts: bool) -> (headers: Vec<SecurityHeader>)
    ensures
        pairs_of(headers@) == security_headers_spec(enable_hsts),
{
    let mut headers: Vec<SecurityHeader> = Vec::new();
    headers.push(SecurityHeader { name: "x-content-type-options", value: "nosniff" });
    headers.push(SecurityHeader { name: "x-frame-options", value: "DENY" });
    headers.push(
        SecurityHeader { name: "referrer-policy", value: "strict-origin-when-cross-origin" },
    );
    headers.push(
        SecurityHeader {
            name: "content-security-policy",
            value: "default-src 'self'; script-src 'self' 'unsafe-inline'",
        },
    );
    if enable_hsts {
        headers.push(
            SecurityHeader {
                name: "strict-transport-security",
                value: "max-age=31536000; includeSubDomains",
            },
        );
    }
    assert(pairs_of(headers@) =~= security_headers_spec(enable_hsts));
    headers
}

} // verus!
