use base64::Engine;
use conduit::auth::{extract_identity_at, optional_identity, optional_identity_at, require_identity};
use conduit::error::{ApiError, Identity};
use conduit::token::{decode_token, decode_token_at, issue_token, issue_token_at, SESSION_SECONDS};
use rsa::pkcs1::{EncodeRsaPrivateKey, EncodeRsaPublicKey, LineEnding};
use rsa::{BigUint, RsaPrivateKey, RsaPublicKey};

/// A deliberately public RSA-2048 test key: both primes are the first primes
/// (with `e = 65537` coprime to `p - 1`) at a small odd offset above a fixed
/// power-of-two base, so anyone can rebuild it. Never use such a key for real.
struct TestKeys {
    signing: String,
    verifying: String,
}

fn test_prime(high_bits: &[usize], offset: u32) -> BigUint {
    let mut p = BigUint::from(offset);
    for &bit in high_bits {
        p += BigUint::from(1u32) << bit;
    }
    p
}

fn test_keys(p: BigUint, q: BigUint) -> TestKeys {
    let key = RsaPrivateKey::from_p_q(p, q, BigUint::from(65537u32)).unwrap();
    let signing = key.to_pkcs1_pem(LineEnding::LF).unwrap().to_string();
    let verifying = RsaPublicKey::from(&key).to_pkcs1_pem(LineEnding::LF).unwrap();
    TestKeys { signing, verifying }
}

fn own_keys() -> TestKeys {
    test_keys(test_prime(&[1023, 1022, 1021], 309), test_prime(&[1023, 1022], 1037))
}

fn foreign_keys() -> TestKeys {
    test_keys(test_prime(&[1023, 1022, 1020], 1125), test_prime(&[1023, 1022, 1019], 197))
}

const ALICE: Identity = Identity { value: 0x67e5_5044_10b1_426f_9247_bb68_0e5f_e0c8 };

fn claims_of(token: &str) -> String {
    let parts: Vec<&str> = token.strip_prefix("Bearer ").unwrap().split('.').collect();
    assert_eq!(parts.len(), 3);
    let bytes = base64::engine::general_purpose::URL_SAFE_NO_PAD.decode(parts[1]).unwrap();
    String::from_utf8(bytes).unwrap()
}

#[test]
fn issued_token_decodes_to_its_subject() {
    let keys = own_keys();
    let now: i64 = 1_700_000_000;
    let token = issue_token_at(ALICE, now, &keys.signing).unwrap();
    assert!(token.starts_with("Bearer "));
    assert_eq!(decode_token_at(&token, now, &keys.verifying), Ok(ALICE));
    assert_eq!(decode_token_at(&token, now + SESSION_SECONDS as i64 - 1, &keys.verifying), Ok(ALICE));
}

#[test]
fn issued_claims_span_exactly_two_weeks() {
    let keys = own_keys();
    let token = issue_token_at(ALICE, 1000, &keys.signing).unwrap();
    assert_eq!(
        claims_of(&token),
        "{\"sub\":\"67e55044-10b1-426f-9247-bb680e5fe0c8\",\"iat\":1000,\"exp\":1210600}"
    );
    assert_eq!(SESSION_SECONDS, 14 * 24 * 60 * 60);
}

#[test]
fn issued_header_names_rs256() {
    let keys = own_keys();
    let token = issue_token_at(ALICE, 5, &keys.signing).unwrap();
    let head = token.strip_prefix("Bearer ").unwrap().split('.').next().unwrap();
    let bytes = base64::engine::general_purpose::URL_SAFE_NO_PAD.decode(head).unwrap();
    assert_eq!(String::from_utf8(bytes).unwrap(), "{\"typ\":\"JWT\",\"alg\":\"RS256\"}");
}

#[test]
fn issued_token_is_a_standard_jwt() {
    let keys = own_keys();
    let token = issue_token_at(ALICE, 1_700_000_000, &keys.signing).unwrap();
    let jwt = token.strip_prefix("Bearer ").unwrap();
    let key = jsonwebtoken::DecodingKey::from_rsa_pem(&keys.verifying.as_bytes()).unwrap();
    let mut validation = jsonwebtoken::Validation::new(jsonwebtoken::Algorithm::RS256);
    validation.validate_exp = false;
    let data = jsonwebtoken::decode::<serde_json::Value>(jwt, &key, &validation).unwrap();
    assert_eq!(data.claims["sub"], "67e55044-10b1-426f-9247-bb680e5fe0c8");
    assert_eq!(data.claims["iat"], 1_700_000_000u64);
    assert_eq!(data.claims["exp"], 1_700_000_000u64 + 1_209_600);
}

#[test]
fn token_is_refused_once_expired() {
    let keys = own_keys();
    let issued_at: i64 = 1_700_000_000;
    let token = issue_token_at(ALICE, issued_at, &keys.signing).unwrap();
    let expiry = issued_at + SESSION_SECONDS as i64;
    assert_eq!(decode_token_at(&token, expiry, &keys.verifying), Err(ApiError::Unauthorized));
    assert_eq!(decode_token_at(&token, expiry + 3600, &keys.verifying), Err(ApiError::Unauthorized));
}

#[test]
fn token_signed_with_another_key_is_refused() {
    let keys = own_keys();
    let foreign = foreign_keys();
    let now: i64 = 1_700_000_000;
    let token = issue_token_at(ALICE, now, &foreign.signing).unwrap();
    assert_eq!(decode_token_at(&token, now, &keys.verifying), Err(ApiError::Unauthorized));
    let other = issue_token_at(Identity { value: 7 }, now, &foreign.signing).unwrap();
    assert_eq!(decode_token_at(&other, now, &keys.verifying), Err(ApiError::Unauthorized));
}

#[test]
fn tampered_claims_are_refused() {
    let keys = own_keys();
    let now: i64 = 1_700_000_000;
    let token = issue_token_at(ALICE, now, &keys.signing).unwrap();
    let bob = issue_token_at(Identity { value: 2 }, now, &keys.signing).unwrap();
    let a: Vec<&str> = token.split('.').collect();
    let b: Vec<&str> = bob.split('.').collect();
    let forged = format!("{}.{}.{}", a[0], b[1], a[2]);
    assert_eq!(decode_token_at(&forged, now, &keys.verifying), Err(ApiError::Unauthorized));
}

#[test]
fn malformed_tokens_are_refused() {
    let keys = own_keys();
    for header in ["", "Bearer ", "Bearer abc", "Bearer a.b.c", "Bearer a.b.c.d", "Token x.y.z"] {
        assert_eq!(decode_token_at(header, 0, &keys.verifying), Err(ApiError::Unauthorized));
    }
}

#[test]
fn unreadable_signing_key_is_internal() {
    assert_eq!(issue_token_at(ALICE, 0, "not a key"), Err(ApiError::Internal));
}

#[test]
fn token_issued_now_decodes_now() {
    let keys = own_keys();
    let token = issue_token(ALICE, &keys.signing).unwrap();
    assert_eq!(decode_token(&token, &keys.verifying), Ok(ALICE));
}

fn expired_header(keys: &TestKeys) -> String {
    issue_token_at(ALICE, 1_000_000, &keys.signing).unwrap()
}

#[test]
fn required_auth_refuses_the_three_invalid_cases() {
    let keys = own_keys();
    let token = issue_token(ALICE, &keys.signing).unwrap();
    let without_scheme = token.strip_prefix("Bearer ").unwrap();
    let expired = expired_header(&keys);
    assert_eq!(require_identity(None, &keys.verifying), Err(ApiError::Unauthorized));
    assert_eq!(require_identity(Some(without_scheme), &keys.verifying), Err(ApiError::Unauthorized));
    assert_eq!(require_identity(Some(&expired), &keys.verifying), Err(ApiError::Unauthorized));
    assert_eq!(require_identity(Some(&token), &keys.verifying), Ok(ALICE));
}

#[test]
fn optional_auth_lets_invalid_requests_through_anonymously() {
    let keys = own_keys();
    let token = issue_token(ALICE, &keys.signing).unwrap();
    let without_scheme = token.strip_prefix("Bearer ").unwrap();
    let expired = expired_header(&keys);
    assert_eq!(optional_identity(None, &keys.verifying), None);
    assert_eq!(optional_identity(Some(without_scheme), &keys.verifying), None);
    assert_eq!(optional_identity(Some(&expired), &keys.verifying), None);
    assert_eq!(optional_identity(Some(&token), &keys.verifying), Some(ALICE));
}

#[test]
fn shared_extraction_uses_the_given_time() {
    let keys = own_keys();
    let token = issue_token_at(ALICE, 100, &keys.signing).unwrap();
    assert_eq!(extract_identity_at(Some(&token), 100, &keys.verifying), Ok(ALICE));
    assert_eq!(
        extract_identity_at(Some(&token), 100 + SESSION_SECONDS as i64, &keys.verifying),
        Err(ApiError::Unauthorized)
    );
    assert_eq!(extract_identity_at(None, 100, &keys.verifying), Err(ApiError::Unauthorized));
}

#[test]
fn issuing_before_the_epoch_is_internal() {
    let keys = own_keys();
    assert_eq!(issue_token_at(ALICE, -1, &keys.signing), Err(ApiError::Internal));
}

#[test]
fn decoding_before_the_epoch_accepts_a_valid_token() {
    let keys = own_keys();
    let token = issue_token_at(ALICE, 0, &keys.signing).unwrap();
    assert_eq!(decode_token_at(&token, -5, &keys.verifying), Ok(ALICE));
}

#[test]
fn decoding_twice_gives_the_same_result() {
    let keys = own_keys();
    let token = issue_token_at(ALICE, 10, &keys.signing).unwrap();
    assert_eq!(decode_token_at(&token, 20, &keys.verifying), decode_token_at(&token, 20, &keys.verifying));
}

#[test]
fn optional_policy_at_a_given_time() {
    let keys = own_keys();
    let token = issue_token_at(ALICE, 100, &keys.signing).unwrap();
    let without_scheme = token.strip_prefix("Bearer ").unwrap();
    assert_eq!(optional_identity_at(Some(&token), 100, &keys.verifying), Some(ALICE));
    assert_eq!(optional_identity_at(Some(&token), 100 + SESSION_SECONDS as i64, &keys.verifying), None);
    assert_eq!(optional_identity_at(Some(without_scheme), 100, &keys.verifying), None);
    assert_eq!(optional_identity_at(None, 100, &keys.verifying), None);
}
