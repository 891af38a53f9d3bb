//! Identity-provider session tokens.
//!
//! A session carries an access token in JWT form: three dot-separated
//! base64 segments, the second of which is a JSON claims object.  The
//! segment arithmetic and the claim plumbing are verified; the base64
//! decoding and the JSON reading are trusted at their call sites.

use vstd::prelude::*;

verus! {

use base64::Engine;
use crate::json::{json_as_bool, json_as_str, json_as_u64, json_get, json_parse};

#[verifier::external_type_specification]
#[verifier::external_body]
pub struct ExDecodeError(base64::DecodeError);

/// What base64 decoding yields: a function of the input characters alone.
pub uninterp spec fn b64_decoded(s: Seq<char>) -> Seq<u8>;

/// Relies on base64's standard no-padding engine: decoding succeeds or
/// fails on the input alone, and the decoded bytes are a function of it.
#[verifier::external_body]
fn b64_decode(s: &str) -> (r: Result<Vec<u8>, base64::DecodeError>)
    ensures
        r matches Ok(b) ==> b@ == b64_decoded(s@),
{
    base64::engine::general_purpose::STANDARD_NO_PAD.decode(s)
}

/// Index of the first dot at or after `from`, or the length when none.
pub open spec fn find_dot(s: Seq<char>, from: int) -> int
    decreases s.len() - from,
{
    if from < 0 || from >= s.len() {
        s.len() as int
    } else if s[from] == '.' {
        from
    } else {
        find_dot(s, from + 1)
    }
}

/// Scan for the first dot at or after `from`.
fn scan_dot(s: &str, from: usize, len: usize) -> (r: usize)
    requires
        len == s@.len(),
        from <= len,
    ensures
        r == find_dot(s@, from as int),
        from <= r <= len,
        r < len ==> s@[r as int] == '.',
{
    let mut i: usize = from;
    while i < len
        invariant
            from <= i <= len,
            len == s@.len(),
            find_dot(s@, from as int) == find_dot(s@, i as int),
            forall|j: int| from <= j < i ==> s@[j] != '.',
        decreases len - i,
    {
        if s.get_char(i) == '.' {
            return i;
        }
        i = i + 1;
    }
    i
}

/// The decoded claims of an access token.
#[derive(Clone, Debug, PartialEq, Eq)]
pub struct ParsedAccessToken {
    pub exp: u64,
    pub iat: u64,
    pub jti: Option<String>,
    pub iss: Option<String>,
    pub sub: Option<String>,
    pub typ: Option<String>,
    pub azp: Option<String>,
    pub nonce: Option<String>,
    pub session_state: Option<String>,
    pub acr: Option<String>,
    pub scope: Option<String>,
    pub sid: Option<String>,
    pub email_verified: bool,
    pub preferred_username: Option<String>,
}

/// One authenticated session against the identity provider.
#[derive(Clone, Debug)]
pub struct KeycloakSession {
    pub access_token: String,
    pub expires_in: u64,
    pub not_before_policy: Option<u64>,
    pub refresh_expires_in: Option<u64>,
    pub refresh_token: Option<String>,
    pub scope: String,
    pub session_state: Option<String>,
    pub token_type: String,
    pub parsed_access_token: Option<ParsedAccessToken>,
}

/// An optional string claim of the object.
fn claim_str(v: &serde_json::Value, key: &str) -> (r: Option<String>) {
    match json_get(v, key) {
        Some(field) => json_as_str(field),
        None => None,
    }
}

/// Read the claims object into plain fields.  The expiry and issue times
/// and the verification flag must be present with their JSON types, else
/// nothing is returned; every other claim is optional.  The claims sit
/// behind opaque JSON member values, so the exact field contents are
/// checked by the callers' tests rather than stated here.
pub fn extract_claims(v: &serde_json::Value) -> (r: Option<ParsedAccessToken>) {
    let exp = match json_get(v, "exp") {
        Some(field) => match json_as_u64(field) {
            Some(n) => n,
            None => {
                return None;
            },
        },
        None => {
            return None;
        },
    };
    let iat = match json_get(v, "iat") {
        Some(field) => match json_as_u64(field) {
            Some(n) => n,
            None => {
                return None;
            },
        },
        None => {
            return None;
        },
    };
    let email_verified = match json_get(v, "email_verified") {
        Some(field) => match json_as_bool(field) {
            Some(b) => b,
            None => {
                return None;
            },
        },
        None => {
            return None;
        },
    };
    Some(
        ParsedAccessToken {
            exp,
            iat,
            jti: claim_str(v, "jti"),
            iss: claim_str(v, "iss"),
            sub: claim_str(v, "sub"),
            typ: claim_str(v, "typ"),
            azp: claim_str(v, "azp"),
            nonce: claim_str(v, "nonce"),
            session_state: claim_str(v, "session_state"),
            acr: claim_str(v, "acr"),
            scope: claim_str(v, "scope"),
            sid: claim_str(v, "sid"),
            email_verified,
            preferred_username: claim_str(v, "preferred_username"),
        },
    )
}

/// The payload segment of an access token: the characters between the
/// first dot and the one after it (or the end).
pub open spec fn jwt_payload(s: Seq<char>) -> Option<Seq<char>> {
    let d1 = find_dot(s, 0);
    if d1 >= s.len() {
        None
    } else {
        Some(s.subrange(d1 + 1, find_dot(s, d1 + 1)))
    }
}

impl KeycloakSession {
    pub fn access_token(&self) -> (r: &str)
        ensures
            r@ == self.access_token@,
    {
        self.access_token.as_str()
    }

    /// Decode the access token's payload segment and keep its claims.
    ///
    /// Every field but the parsed claims is preserved.  A token without a
    /// dot has no payload segment and the claims stay as they were, as
    /// they do when decoding or claim reading fails; the payload handed to
    /// the decoder is exactly the token's second dot-separated segment.
    pub fn parse_access_token(token: KeycloakSession) -> (r: KeycloakSession)
        ensures
            r.access_token == token.access_token,
            r.expires_in == token.expires_in,
            r.not_before_policy == token.not_before_policy,
            r.refresh_expires_in == token.refresh_expires_in,
            r.refresh_token == token.refresh_token,
            r.scope == token.scope,
            r.session_state == token.session_state,
            r.token_type == token.token_type,
            jwt_payload(token.access_token@) is None ==> r.parsed_access_token
                == token.parsed_access_token,
            r.parsed_access_token != token.parsed_access_token ==> jwt_payload(
                token.access_token@,
            ) is Some,
    {
        let mut token = token;
        let s = token.access_token.as_str();
        let len = s.unicode_len();
        let d1 = scan_dot(s, 0, len);
        if d1 >= len {
            return token;
        }
        let d2 = scan_dot(s, d1 + 1, len);
        let seg = s.substring_char(d1 + 1, d2);
        proof {
            assert(seg@ == jwt_payload(token.access_token@)->0);
        }
        let decoded = match b64_decode(seg) {
            Ok(b) => b,
            Err(_) => {
                return token;
            },
        };
        let value = match json_parse(decoded.as_slice()) {
            Ok(v) => v,
            Err(_) => {
                return token;
            },
        };
        match extract_claims(&value) {
            Some(claims) => {
                token.parsed_access_token = Some(claims);
                token
            },
            None => token,
        }
    }
}

} // verus!
