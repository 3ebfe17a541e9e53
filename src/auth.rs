//! The authentication gate's decisions: bearer token extraction, token
//! comparison through a keyed MAC, and which address identifies a client.

use vstd::prelude::*;
use vstd::string::StrSliceExecFns;
use crate::errors::{AppError, is_forbidden};
use crate::text::{char_vec, trimmed};
use hmac::Mac;

verus! {

/// The HMAC-SHA256 tag of the fixed verification message under a token
/// (its UTF-8 bytes) as key.
pub uninterp spec fn token_digest(token: Seq<char>) -> Seq<u8>;

/// The message both sides of a token comparison authenticate.
pub const TOKEN_VERIFY_MESSAGE: &'static str = "mcp-token-verify";

/// Relies on hmac's `Hmac<Sha256>`: `new_from_slice` (which accepts keys of
/// any length), `update` with the fixed message, then `finalize`.
#[verifier::external_body]
fn token_tag(token: &str) -> (r: Vec<u8>)
    ensures
        r@ == token_digest(token@),
{
    match hmac::Hmac::<sha2::Sha256>::new_from_slice(token.as_bytes()) {
        Ok(mut mac) => {
            mac.update(TOKEN_VERIFY_MESSAGE.as_bytes());
            mac.finalize().into_bytes().to_vec()
        },
        Err(_) => Vec::new(),
    }
}

/// Relies on hmac's `Mac::verify_slice`, a constant-time comparison of the
/// tag under `token` with `tag`: `Ok` exactly when they are equal.
#[verifier::external_body]
fn tag_verifies(token: &str, tag: &Vec<u8>) -> (r: bool)
    ensures
        r == (token_digest(token@) == tag@),
{
    match hmac::Hmac::<sha2::Sha256>::new_from_slice(token.as_bytes()) {
        Ok(mut mac) => {
            mac.update(TOKEN_VERIFY_MESSAGE.as_bytes());
            mac.verify_slice(tag).is_ok()
        },
        Err(_) => false,
    }
}

/// Whether two tokens authenticate alike: their tags are equal, compared
/// in constant time.
pub fn tokens_match(expected: &str, provided: &str) -> (r: bool)
    ensures
        r == (token_digest(expected@) == token_digest(provided@)),
{
    let provided_tag = token_tag(provided);
    tag_verifies(expected, &provided_tag)
}

/// The token of an `Authorization` header value: what follows `Bearer `,
/// when that is not empty.
pub open spec fn bearer_token(v: Seq<char>) -> Option<Seq<char>> {
    if v.len() > 7 && v.subrange(0, 7) == "Bearer "@ {
        Some(v.subrange(7, v.len() as int))
    } else {
        None
    }
}

pub fn parse_bearer_token(value: &str) -> (r: Option<&str>)
    ensures
        match bearer_token(value@) {
            Some(t) => r matches Some(s) && s@ == t,
            None => r is None,
        },
{
    let chars = char_vec(value);
    let prefix = char_vec("Bearer ");
    proof {
        reveal_strlit("Bearer ");
    }
    if chars.len() <= prefix.len() {
        return None;
    }
    if !crate::text::matches_at(&chars, &prefix, 0) {
        return None;
    }
    assert(chars@.subrange(0, 7) == "Bearer "@);
    Some(value.substring_char(7, chars.len()))
}

/// The part of a forwarded-for header before its first comma.
pub open spec fn first_hop(h: Seq<char>) -> Seq<char> {
    if exists|i: int| 0 <= i < h.len() && h[i] == ',' {
        h.subrange(0, choose|i: int| 0 <= i < h.len() && h[i] == ',' && forall|k: int| 0 <= k < i ==> h[k] != ',')
    } else {
        h
    }
}

/// Which address identifies a client.
#[derive(Debug, Clone, PartialEq, Eq)]
pub enum ClientAddress {
    /// The direct peer.
    Peer,
    /// The left-most forwarded-for entry, trimmed, still to be read as an
    /// IP address.
    Forwarded(String),
}

/// The forwarded-for header is honoured only when the direct peer is a
/// trusted proxy; a trusted peer without the header is refused.
pub fn choose_client_address(peer_is_trusted: bool, forwarded_for: Option<&str>) -> (r: Result<ClientAddress, AppError>)
    ensures
        !peer_is_trusted ==> r == Ok::<ClientAddress, AppError>(ClientAddress::Peer),
        peer_is_trusted && forwarded_for is None ==> (r matches Err(e) && is_forbidden(e, "ip_restricted"@)),
        peer_is_trusted && forwarded_for is Some ==> (r matches Ok(ClientAddress::Forwarded(a))
            && a@ == trimmed(first_hop(forwarded_for->0@))),
{
    if !peer_is_trusted {
        return Ok(ClientAddress::Peer);
    }
    let header = match forwarded_for {
        None => {
            return Err(
                AppError::forbidden(
                    "ip_restricted",
                    "x-forwarded-for is required when request comes from a trusted proxy",
                ),
            );
        },
        Some(h) => h,
    };
    let chars = char_vec(header);
    let mut i: usize = 0;
    while i < chars.len() && chars[i] != ','
        invariant
            i <= chars@.len(),
            chars@ == header@,
            forall|k: int| 0 <= k < i ==> chars@[k] != ',',
        decreases chars@.len() - i,
    {
        i += 1;
    }
    proof {
        if i < chars@.len() {
            let j = choose|j: int| 0 <= j < header@.len() && header@[j] == ',' && forall|k: int| 0 <= k < j ==> header@[k] != ',';
            if j < i {
                assert(chars@[j] != ',');
            } else if j > i {
                assert(header@[i as int] == ',');
            }
            assert(first_hop(header@) == header@.subrange(0, i as int));
        } else {
            assert(header@.subrange(0, i as int) == header@);
        }
    }
    let hop = header.substring_char(0, i);
    let trimmed_hop = crate::text::trim(hop);
    Ok(ClientAddress::Forwarded(trimmed_hop))
}

/// The refusal of a forwarded-for entry that is not an IP address.
pub fn invalid_forwarded_address() -> (r: AppError)
    ensures
        is_forbidden(r, "ip_restricted"@),
{
    AppError::forbidden("ip_restricted", "x-forwarded-for contains an invalid client IP")
}

/// The refusal of a client outside the allowed range.
pub fn address_not_allowed() -> (r: AppError)
    ensures
        is_forbidden(r, "ip_restricted"@),
{
    AppError::forbidden("ip_restricted", "request source IP is not allowed")
}

} // verus!
