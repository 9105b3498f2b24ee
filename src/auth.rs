use vstd::prelude::*;
use vstd::utf8::encode_utf8;

use crate::crypto::{b64url_decoded, unix_now};
use crate::error::{ApiError, Identity};
use crate::token::{
    claims_json, decode_token_at, decoded, dot_free, has_bearer_prefix, quote_free, token_text,
};

verus! {

/// What the shared extraction gives for an `Authorization` header value at
/// time `now`: `Unauthorized` without a header, else the decoded token.
pub open spec fn extracted(header: Option<&str>, now: int, public_pem: Seq<char>) -> Result<
    Identity,
    ApiError,
> {
    match header {
        None => Err(ApiError::Unauthorized),
        Some(h) => decoded(h@, now, public_pem),
    }
}

/// The identity, if any, that the extraction leaves a request with.
pub open spec fn identity_of(e: Result<Identity, ApiError>) -> Option<Identity> {
    match e {
        Ok(id) => Some(id),
        Err(_) => None,
    }
}

/// A well-formed token whose expiry time is not after `now`.
pub open spec fn expired_token(header: Seq<char>, now: int) -> bool {
    exists|c: Seq<char>, sig: Seq<char>, sub: Seq<char>, iat: u64, exp: u64|
        #![trigger token_text(c, sig), claims_json(sub, iat as nat, exp as nat)]
        header == token_text(c, sig) && dot_free(c) && dot_free(sig) && quote_free(sub)
            && b64url_decoded(c) == Some(encode_utf8(claims_json(sub, iat as nat, exp as nat))) && exp <= now
}

/// Reads the identity out of an `Authorization` header value at Unix time
/// `now` (`None` when the header is absent or not text). Shared by the
/// required and the optional policy; every failure is `Unauthorized`: no
/// header, no scheme label, or a token that is not accepted, expired ones
/// included.
pub fn extract_identity_at(header: Option<&str>, now: i64, public_pem: &str) -> (r: Result<
    Identity,
    ApiError,
>)
    ensures
        r == extracted(header, now as int, public_pem@),
        r is Err ==> r == Err::<Identity, ApiError>(ApiError::Unauthorized),
        header is None ==> r is Err,
        header matches Some(h) && !has_bearer_prefix(h@) ==> r is Err,
        header matches Some(h) && expired_token(h@, now as int) ==> r is Err,
{
    match header {
        None => Err(ApiError::Unauthorized),
        Some(h) => decode_token_at(h, now, public_pem),
    }
}

/// The optional policy at Unix time `now`: never refuses the request; any
/// failure of the extraction leaves it without an identity.
pub fn optional_identity_at(header: Option<&str>, now: i64, public_pem: &str) -> (r: Option<
    Identity,
>)
    ensures
        r == identity_of(extracted(header, now as int, public_pem@)),
        header is None ==> r is None,
        header matches Some(h) && !has_bearer_prefix(h@) ==> r is None,
        header matches Some(h) && expired_token(h@, now as int) ==> r is None,
{
    match extract_identity_at(header, now, public_pem) {
        Ok(id) => Some(id),
        Err(_) => None,
    }
}

/// The required policy at the current time: a request without a valid,
/// unexpired token is refused with `Unauthorized` before it reaches the
/// handler.
pub fn require_identity(header: Option<&str>, public_pem: &str) -> (r: Result<Identity, ApiError>)
    ensures
        exists|now: int| r == #[trigger] extracted(header, now, public_pem@),
        r is Err ==> r == Err::<Identity, ApiError>(ApiError::Unauthorized),
        header is None ==> r is Err,
        header matches Some(h) && !has_bearer_prefix(h@) ==> r is Err,
{
    extract_identity_at(header, unix_now(), public_pem)
}

/// The optional policy at the current time.
pub fn optional_identity(header: Option<&str>, public_pem: &str) -> (r: Option<Identity>)
    ensures
        exists|now: int| r == identity_of(#[trigger] extracted(header, now, public_pem@)),
        header is None ==> r is None,
        header matches Some(h) && !has_bearer_prefix(h@) ==> r is None,
{
    optional_identity_at(header, unix_now(), public_pem)
}

} // verus!
