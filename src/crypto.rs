use base64::Engine;
use vstd::prelude::*;
use vstd::utf8::encode_utf8;


verus! {

/// The URL-safe base64 text, without padding, of some bytes.
pub uninterp spec fn b64url_of(bytes: Seq<u8>) -> Seq<char>;

/// The bytes that a URL-safe, unpadded base64 text encodes, if any.
pub uninterp spec fn b64url_decoded(text: Seq<char>) -> Option<Seq<u8>>;

/// The lowercase hex digit of `d` in `0..16`.
pub open spec fn hex_digit(d: u128) -> char {
    if d < 10 {
        ((d + 48) as u8) as char
    } else {
        ((d + 87) as u8) as char
    }
}

/// The `k`-th of the 32 hex digits of a UUID value, most significant first.
pub open spec fn uuid_nibble(value: u128, k: int) -> u128 {
    (value >> ((31 - k) * 4) as u128) & 15
}

/// The hyphenated lowercase text of a UUID value: its 32 hex digits in
/// groups of 8, 4, 4, 4 and 12, joined by dashes.
pub open spec fn uuid_text_of(value: u128) -> Seq<char> {
    Seq::new(
        36,
        |i: int|
            if i == 8 || i == 13 || i == 18 || i == 23 {
                '-'
            } else {
                let k = if i < 8 {
                    i
                } else if i < 13 {
                    i - 1
                } else if i < 18 {
                    i - 2
                } else if i < 23 {
                    i - 3
                } else {
                    i - 4
                };
                hex_digit(uuid_nibble(value, k))
            },
    )
}

pub proof fn lemma_uuid_text_shaped(value: u128)
    ensures
        uuid_shaped(uuid_text_of(value)),
{
    let s = uuid_text_of(value);
    assert forall|i: int| 0 <= i < s.len() implies ('0' <= #[trigger] s[i] <= '9') || ('a' <= s[i]
        <= 'f') || s[i] == '-' by {
        if !(i == 8 || i == 13 || i == 18 || i == 23) {
            let k: int = if i < 8 {
                i
            } else if i < 13 {
                i - 1
            } else if i < 18 {
                i - 2
            } else if i < 23 {
                i - 3
            } else {
                i - 4
            };
            let x = value >> ((31 - k) * 4) as u128;
            assert(x & 15 <= 15) by (bit_vector);
        }
    }
}

/// The UUID value that a text spells, if it spells one.
pub uninterp spec fn uuid_parsed(text: Seq<char>) -> Option<u128>;

/// The RS256 signature, as URL-safe base64 text, of a message under the
/// private key given in PEM form, if that key can be read.
pub uninterp spec fn rs256_signature(message: Seq<char>, private_pem: Seq<char>) -> Option<Seq<char>>;

/// Whether a URL-safe base64 signature verifies a message under the RS256
/// public key given in PEM form.
pub uninterp spec fn rs256_accepts(
    signature: Seq<char>,
    message: Seq<char>,
    public_pem: Seq<char>,
) -> bool;

/// A character of the URL-safe base64 alphabet.
pub open spec fn url_safe_char(c: char) -> bool {
    ('A' <= c && c <= 'Z') || ('a' <= c && c <= 'z') || ('0' <= c && c <= '9') || c == '-' || c
        == '_'
}

pub open spec fn url_safe(s: Seq<char>) -> bool {
    forall|i: int| 0 <= i < s.len() ==> url_safe_char(#[trigger] s[i])
}

/// The shape of a hyphenated UUID: 36 characters, lowercase hex digits and dashes.
pub open spec fn uuid_shaped(s: Seq<char>) -> bool {
    &&& s.len() == 36
    &&& forall|i: int|
        0 <= i < s.len() ==> ('0' <= #[trigger] s[i] <= '9') || ('a' <= s[i] <= 'f') || s[i]
            == '-'
}

/// Relies on base64's `URL_SAFE_NO_PAD` engine (the one jsonwebtoken applies
/// to each token part), here on a string's UTF-8 bytes: the output is a
/// function of the bytes and uses only the URL-safe alphabet.
#[verifier::external_body]
pub(crate) fn b64url_encode(text: &str) -> (r: String)
    ensures
        r@ == b64url_of(encode_utf8(text@)),
        url_safe(r@),
{
    base64::engine::general_purpose::URL_SAFE_NO_PAD.encode(text)
}

/// Relies on base64's `URL_SAFE_NO_PAD` decoder: decoding what the encoder
/// wrote gives the same bytes back.
#[verifier::external_body]
pub(crate) fn b64url_decode(text: &str) -> (r: Option<Vec<u8>>)
    ensures
        r is Some ==> b64url_decoded(text@) == Some(r.unwrap()@),
        r is None ==> b64url_decoded(text@) is None,
        forall|b: Seq<u8>| #[trigger] b64url_of(b) == text@ ==> r is Some && r.unwrap()@ == b,
{
    base64::engine::general_purpose::URL_SAFE_NO_PAD.decode(text).ok()
}

/// Relies on `String::from_utf8`: it succeeds exactly on the UTF-8 encoding
/// of some text, and gives that text.
#[verifier::external_body]
pub(crate) fn utf8_text(bytes: Vec<u8>) -> (r: Option<String>)
    ensures
        r is Some ==> encode_utf8(r.unwrap()@) == bytes@,
        forall|t: Seq<char>| #[trigger] encode_utf8(t) == bytes@ ==> r is Some && r.unwrap()@ == t,
{
    String::from_utf8(bytes).ok()
}

/// Relies on `uuid::Uuid::hyphenated` of `Uuid::from_u128`: the value's
/// big-endian hex digits, lowercase, grouped 8-4-4-4-12.
#[verifier::external_body]
pub(crate) fn uuid_text(value: u128) -> (r: String)
    ensures
        r@ == uuid_text_of(value),
{
    uuid::Uuid::from_u128(value).hyphenated().to_string()
}

/// Relies on `uuid::Uuid::try_parse`, which reads the hyphenated form back
/// to the value it was written from.
#[verifier::external_body]
pub(crate) fn uuid_parse(text: &str) -> (r: Option<u128>)
    ensures
        r == uuid_parsed(text@),
        forall|v: u128| #[trigger] uuid_text_of(v) == text@ ==> r == Some(v),
{
    uuid::Uuid::try_parse(text).ok().map(|u| u.as_u128())
}

/// Relies on `jsonwebtoken::crypto::sign` with `Algorithm::RS256`, after
/// reading the key with `EncodingKey::from_rsa_pem`: RSASSA-PKCS1-v1_5 is
/// deterministic, and the signature comes back as URL-safe base64.
#[verifier::external_body]
pub(crate) fn rs256_sign(message: &str, private_pem: &str) -> (r: Option<String>)
    ensures
        r is None ==> rs256_signature(message@, private_pem@) is None,
        r is Some ==> rs256_signature(message@, private_pem@) == Some(r.unwrap()@),
        r is Some ==> url_safe(r.unwrap()@),
{
    let key = jsonwebtoken::EncodingKey::from_rsa_pem(private_pem.as_bytes()).ok()?;
    jsonwebtoken::crypto::sign(message.as_bytes(), &key, jsonwebtoken::Algorithm::RS256).ok()
}

/// Relies on `jsonwebtoken::crypto::verify` with `Algorithm::RS256`, after
/// reading the key with `DecodingKey::from_rsa_pem`; an unreadable key or
/// signature verifies nothing.
#[verifier::external_body]
pub(crate) fn rs256_verify(signature: &str, message: &str, public_pem: &str) -> (r: bool)
    ensures
        r == rs256_accepts(signature@, message@, public_pem@),
{
    match jsonwebtoken::DecodingKey::from_rsa_pem(public_pem.as_bytes()) {
        Ok(key) => jsonwebtoken::crypto::verify(
            signature,
            message.as_bytes(),
            &key,
            jsonwebtoken::Algorithm::RS256,
        ).unwrap_or(false),
        Err(_) => false,
    }
}

/// Relies on `time::OffsetDateTime::now_utc`: the current Unix time in
/// seconds, whatever the clock says.
#[verifier::external_body]
pub(crate) fn unix_now() -> (r: i64) {
    time::OffsetDateTime::now_utc().unix_timestamp()
}

} // verus!
