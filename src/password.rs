use vstd::prelude::*;

use crate::error::ApiError;

verus! {

/// A character of the B64 alphabet that PHC strings use for salts.
pub open spec fn b64_salt_char(c: char) -> bool {
    ('A' <= c && c <= 'Z') || ('a' <= c && c <= 'z') || ('0' <= c && c <= '9') || c == '+' || c
        == '/'
}

/// The shape of a generated salt: 16 random bytes in unpadded B64, that is
/// 22 characters whose last one carries no stray low bits.
pub open spec fn salt_shaped(s: Seq<char>) -> bool {
    &&& s.len() == 22
    &&& forall|i: int| 0 <= i < s.len() ==> b64_salt_char(#[trigger] s[i])
    &&& (s[21] == 'A' || s[21] == 'Q' || s[21] == 'g' || s[21] == 'w')
}

/// `$argon2id$v=19$m=19456,t=2,p=1$`: algorithm, version and the default
/// Argon2 parameters, as a PHC string begins.
pub open spec fn phc_head() -> Seq<char> {
    seq![
        '$', 'a', 'r', 'g', 'o', 'n', '2', 'i', 'd', '$', 'v', '=', '1', '9', '$', 'm', '=', '1',
        '9', '4', '5', '6', ',', 't', '=', '2', ',', 'p', '=', '1', '$',
    ]
}

/// The B64 hash field that Argon2id with the default parameters derives
/// from a password and a salt.
pub uninterp spec fn argon2_digest(password: Seq<char>, salt: Seq<char>) -> Seq<char>;

/// The self-describing PHC string of a password under a salt: parameters,
/// the salt itself, and the derived hash.
pub open spec fn argon2_phc(password: Seq<char>, salt: Seq<char>) -> Seq<char> {
    phc_head() + salt + seq!['$'] + argon2_digest(password, salt)
}

/// What checking a password against a stored PHC string gives: `None` when
/// the stored string does not parse, else whether the password matches.
pub uninterp spec fn argon2_check(password: Seq<char>, stored: Seq<char>) -> Option<bool>;

/// The longest password, in characters, whose UTF-8 bytes always fit
/// Argon2's limit of `u32::MAX` bytes.
pub const MAX_PASSWORD_CHARS: u64 = 0x3fff_ffff;

/// `stored` is a credential derived from `password` with a generated salt.
pub open spec fn credential_for(stored: Seq<char>, password: Seq<char>) -> bool {
    exists|salt: Seq<char>| salt_shaped(salt) && stored == #[trigger] argon2_phc(password, salt)
}

/// Two different salts never give the same credential for one password:
/// the salt stands in the stored string.
pub proof fn lemma_salt_in_credential(password: Seq<char>, s1: Seq<char>, s2: Seq<char>)
    requires
        salt_shaped(s1),
        salt_shaped(s2),
        s1 != s2,
    ensures
        argon2_phc(password, s1) != argon2_phc(password, s2),
{
    assert(!(s1 =~= s2));
    let i = choose|i: int| 0 <= i < 22 && s1[i] != s2[i];
    let h = phc_head();
    assert(h.len() == 31);
    let a = argon2_phc(password, s1);
    let b = argon2_phc(password, s2);
    assert(a == h + s1 + (seq!['$'] + argon2_digest(password, s1)));
    assert(b == h + s2 + (seq!['$'] + argon2_digest(password, s2)));
    assert((h + s1)[31 + i] == s1[i]);
    assert((h + s2)[31 + i] == s2[i]);
    assert(a[31 + i] == s1[i]);
    assert(b[31 + i] == s2[i]);
}

/// Relies on `SaltString::generate` with `rand::thread_rng()`: 16 random
/// bytes, written in unpadded B64.
#[verifier::external_body]
fn new_salt() -> (r: String)
    ensures
        salt_shaped(r@),
{
    argon2::password_hash::SaltString::generate(rand::thread_rng()).as_str().to_owned()
}

/// Relies on `PasswordHash::generate` with `Argon2::default()`, after reading
/// the salt with `SaltString::from_b64`: the PHC string written by its
/// `Display`; it fails only on an unreadable salt or an overlong password.
#[verifier::external_body]
fn argon2_hash(password: &str, salt: &str) -> (r: Option<String>)
    ensures
        r is Some ==> r.unwrap()@ == phc_head() + salt@ + seq!['$'] + argon2_digest(password@, salt@),
        salt_shaped(salt@) && password@.len() <= MAX_PASSWORD_CHARS ==> r is Some,
{
    let salt = argon2::password_hash::SaltString::from_b64(salt).ok()?;
    argon2::PasswordHash::generate(argon2::Argon2::default(), password, &salt).ok().map(
        |h| h.to_string(),
    )
}

/// Relies on `PasswordHash::new` and `PasswordHash::verify_password` with
/// `Argon2::default()`: a string that `PasswordHash::generate` wrote parses,
/// and re-deriving with its embedded parameters matches the same password.
#[verifier::external_body]
fn argon2_verify(password: &str, stored: &str) -> (r: Option<bool>)
    ensures
        r == argon2_check(password@, stored@),
        forall|salt: Seq<char>|
            salt_shaped(salt) && #[trigger] argon2_phc(password@, salt) == stored@ ==> r == Some(true),
{
    let hash = argon2::PasswordHash::new(stored).ok()?;
    Some(hash.verify_password(&[&argon2::Argon2::default()], password).is_ok())
}

/// Derives the credential of a password under a given salt. It succeeds
/// on every generated salt and every password of at most
/// `MAX_PASSWORD_CHARS` characters.
pub fn hash_password_with_salt(password: &str, salt: &str) -> (r: Result<String, ApiError>)
    ensures
        r is Err ==> r == Err::<String, ApiError>(ApiError::Internal),
        r matches Ok(h) ==> h@ == argon2_phc(password@, salt@),
        salt_shaped(salt@) && password@.len() <= MAX_PASSWORD_CHARS ==> r is Ok,
{
    match argon2_hash(password, salt) {
        Some(h) => Ok(h),
        None => Err(ApiError::Internal),
    }
}

/// Derives a storable credential from a password with a fresh random salt.
/// CPU- and memory-hard: run it off the request-dispatch threads.
pub fn hash_password(password: &str) -> (r: Result<String, ApiError>)
    ensures
        r is Err ==> r == Err::<String, ApiError>(ApiError::Internal),
        password@.len() <= MAX_PASSWORD_CHARS ==> r is Ok,
        r matches Ok(h) ==> credential_for(h@, password@),
{
    let salt = new_salt();
    hash_password_with_salt(password, salt.as_str())
}

/// Checks a password against a stored credential. A stored string that does
/// not parse is a server fault (`Internal`); a password that does not match
/// is `Unauthorized`.
pub fn verify_password(password: &str, stored: &str) -> (r: Result<(), ApiError>)
    ensures
        r == match argon2_check(password@, stored@) {
            None => Err(ApiError::Internal),
            Some(true) => Ok(()),
            Some(false) => Err(ApiError::Unauthorized),
        },
        credential_for(stored@, password@) ==> r is Ok,
{
    match argon2_verify(password, stored) {
        None => Err(ApiError::Internal),
        Some(true) => Ok(()),
        Some(false) => Err(ApiError::Unauthorized),
    }
}

} // verus!
