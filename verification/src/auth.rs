//! The pure parts of authentication: password comparison, token claims,
//! and bearer-header parsing.  Signing and verifying the token itself is
//! a cryptographic service outside the library.

use vstd::prelude::*;
use vstd::string::*;
use crate::text::{is_prefix, has_prefix, vecs_eq, to_chars, sub_vec, string_from_chars};

verus! {

/// The claims carried by a session token; `iat` and `exp` are unix
/// seconds.
#[derive(Clone, Debug)]
pub struct Claims {
    pub sub: String,
    pub iat: i64,
    pub exp: i64,
}

/// The authenticated caller of a request.
pub struct AuthUser(pub Claims);

/// The claims of a session issued at `now_ts` that expires the given
/// number of hours later.  The bounds keep the expiry within the
/// representable range.
pub fn make_claims(now_ts: i64, expire_hours: i64) -> (r: Claims)
    requires
        0 <= now_ts <= 253_402_300_799,
        0 <= expire_hours <= 1_000_000,
    ensures
        r.sub@ == "user"@,
        r.iat == now_ts,
        r.exp == now_ts + expire_hours * 3600,
{
    Claims { sub: String::from_str("user"), iat: now_ts, exp: now_ts + expire_hours * 3600 }
}

/// Whether the presented password matches the configured one.
pub fn check_password(given: &str, expected: &str) -> (r: bool)
    ensures
        r == (given@ == expected@),
{
    let a = to_chars(given);
    let b = to_chars(expected);
    vecs_eq(&a, &b)
}

/// The bearer token of an Authorization header value: the rest of the
/// header after the `Bearer ` scheme prefix, or nothing when the scheme
/// does not match.
pub fn extract_bearer_token(header: &str) -> (r: Option<String>)
    ensures
        match r {
            Some(t) => is_prefix(header@, "Bearer "@) && header@ == "Bearer "@ + t@,
            None => !is_prefix(header@, "Bearer "@),
        },
{
    let v = to_chars(header);
    let p = to_chars("Bearer ");
    if has_prefix(&v, &p) {
        let rest = sub_vec(&v, p.len(), v.len());
        proof {
            assert(header@ =~= "Bearer "@ + rest@);
        }
        Some(string_from_chars(&rest))
    } else {
        None
    }
}

} // verus!
