//! Optional HTTP Basic authentication of API requests.  The health
//! endpoint stays public.

use base64::Engine;
use vstd::prelude::*;
use vstd::string::StringSliceAdditionalSpecFns;
use vstd::utf8::{decode_utf8, valid_utf8};

use crate::text::{chars_of, chars_slice, find_chars, find_from, lemma_find_from, string_from_chars};

verus! {

/// Body of the answer to an unauthenticated request.
pub const UNAUTHORIZED_BODY: &'static str = "{\"error\":\"authentication required\"}";

/// `WWW-Authenticate` value of the answer to an unauthenticated request.
pub const AUTHENTICATE_CHALLENGE: &'static str = "Basic realm=\"Inferno Radio\"";

/// The path that needs no credentials.
pub open spec fn health_path() -> Seq<char> {
    "/api/v1/health"@
}

/// What the standard Base64 engine of the `base64` crate (standard
/// alphabet, canonical padding required) decodes `input` to; `None` when
/// it rejects the input.
pub uninterp spec fn base64_standard_decode(input: Seq<u8>) -> Option<Seq<u8>>;

/// Calls `base64::engine::general_purpose::STANDARD.decode` on the bytes
/// of `s`.  Its result is named `base64_standard_decode`; the Base64 rules
/// themselves are left to the name.
#[verifier::external_body]
fn base64_decode(s: &str) -> (r: Option<Vec<u8>>)
    ensures
        r matches Some(v) ==> base64_standard_decode(s.spec_bytes()) == Some(v@),
        r is None ==> base64_standard_decode(s.spec_bytes()) is None,
{
    base64::engine::general_purpose::STANDARD.decode(s).ok()
}

/// Calls `std::str::from_utf8`, which accepts exactly the valid UTF-8 byte
/// sequences and decodes them.
#[verifier::external_body]
fn utf8_text(bytes: &[u8]) -> (r: Option<&str>)
    ensures
        r is Some <==> valid_utf8(bytes@),
        r matches Some(s) ==> s@ == decode_utf8(bytes@),
{
    std::str::from_utf8(bytes).ok()
}

/// Splits at the first `:`.
pub open spec fn split_once_colon(c: Seq<char>) -> Option<(Seq<char>, Seq<char>)> {
    match find_from(c, ":"@, 0) {
        Some(i) => Some((c.subrange(0, i), c.subrange(i + 1, c.len() as int))),
        None => None,
    }
}

/// Decoded credentials match: they are UTF-8 text `user:password`, split at
/// the first `:`.
pub open spec fn credentials_match_spec(decoded: Seq<u8>, user: Seq<char>, pass: Seq<char>) -> bool {
    valid_utf8(decoded) && match split_once_colon(decode_utf8(decoded)) {
        Some((u, p)) => u == user && p == pass,
        None => false,
    }
}

/// An `Authorization` header grants access: `Basic ` followed by the
/// Base64 encoding of matching credentials.
pub open spec fn header_grants(header: Seq<char>, user: Seq<char>, pass: Seq<char>) -> bool {
    header.len() >= 6 && header.subrange(0, 6) == "Basic "@ && match base64_standard_decode(
        vstd::utf8::encode_utf8(header.subrange(6, header.len() as int)),
    ) {
        Some(b) => credentials_match_spec(b, user, pass),
        None => false,
    }
}

/// A request passes: authentication is off, or it asks for the health
/// endpoint, or its `Authorization` header grants access.
pub open spec fn request_allowed(
    enabled: bool,
    path: Seq<char>,
    header: Option<Seq<char>>,
    user: Seq<char>,
    pass: Seq<char>,
) -> bool {
    !enabled || path == health_path() || match header {
        Some(h) => header_grants(h, user, pass),
        None => false,
    }
}

/// Whether decoded Basic credentials are `username:password`.
pub fn credentials_match(decoded: &[u8], username: &str, password: &str) -> (b: bool)
    ensures
        b == credentials_match_spec(decoded@, username@, password@),
{
    match utf8_text(decoded) {
        None => false,
        Some(creds) => {
            let c = chars_of(creds);
            let colon = chars_of(":");
            match find_chars(&c, &colon, 0) {
                None => false,
                Some(i) => {
                    proof {
                        lemma_find_from(c@, colon@, 0);
                        reveal_strlit(":");
                        assert(colon@.len() == 1);
                        assert(find_from(c@, colon@, 0) == Some(i as int));
                        assert(i + 1 <= c@.len());
                    }
                    let u = chars_slice(&c, 0, i);
                    let clen = c.len();
                    let p = chars_slice(&c, i + 1, clen);
                    let us = string_from_chars(&u);
                    let ps = string_from_chars(&p);
                    let un = string_from_chars(&chars_of(username));
                    let pw = string_from_chars(&chars_of(password));
                    us == un && ps == pw
                },
            }
        },
    }
}

/// Whether a request passes the Basic authentication layer (see
/// `request_allowed`).
pub fn authorize_request(
    path: &str,
    auth_header: Option<&str>,
    username: &str,
    password: &str,
    enabled: bool,
) -> (b: bool)
    ensures
        b == request_allowed(
            enabled,
            path@,
            match auth_header {
                Some(h) => Some(h@),
                None => None,
            },
            username@,
            password@,
        ),
{
    if !enabled {
        return true;
    }
    let p = string_from_chars(&chars_of(path));
    let health = string_from_chars(&chars_of("/api/v1/health"));
    if p == health {
        return true;
    }
    match auth_header {
        None => false,
        Some(h) => {
            let hc = chars_of(h);
            let prefix = chars_of("Basic ");
            if hc.len() < 6 {
                return false;
            }
            let head = string_from_chars(&chars_slice(&hc, 0, 6));
            let pre = string_from_chars(&prefix);
            if !(head == pre) {
                return false;
            }
            let rest = string_from_chars(&chars_slice(&hc, 6, hc.len()));
            match base64_decode(rest.as_str()) {
                None => false,
                Some(decoded) => credentials_match(decoded.as_slice(), username, password),
            }
        },
    }
}

} // verus!
