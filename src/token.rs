use vstd::prelude::*;
use vstd::utf8::encode_utf8;

use crate::crypto::{
    b64url_decode, b64url_decoded, utf8_text, b64url_encode, b64url_of, rs256_accepts,
    rs256_sign, rs256_signature, rs256_verify, unix_now, url_safe, url_safe_char, uuid_parse, uuid_parsed,
    uuid_shaped, uuid_text, uuid_text_of, lemma_uuid_text_shaped,
};
use crate::error::{ApiError, Identity};
use crate::text::{decimal, find_char, read_decimal, lemma_decimal_digits, push_char, push_decimal, same_text};

verus! {

/// How long an issued token stays valid: two weeks, in seconds.
pub const SESSION_SECONDS: u64 = 1209600;

/// `{"sub":"`
pub open spec fn sub_open() -> Seq<char> {
    seq!['{', '"', 's', 'u', 'b', '"', ':', '"']
}

/// `","iat":`
pub open spec fn iat_open() -> Seq<char> {
    seq!['"', ',', '"', 'i', 'a', 't', '"', ':']
}

/// `,"exp":`
pub open spec fn exp_open() -> Seq<char> {
    seq![',', '"', 'e', 'x', 'p', '"', ':']
}

/// The JSON claims of a token: subject, issue time and expiry time.
pub open spec fn claims_json(sub: Seq<char>, iat: nat, exp: nat) -> Seq<char> {
    sub_open() + sub + iat_open() + decimal(iat) + exp_open() + decimal(exp) + seq!['}']
}

pub open spec fn quote_free(s: Seq<char>) -> bool {
    forall|i: int| 0 <= i < s.len() ==> s[i] != '"'
}

proof fn lemma_uuid_quote_free(s: Seq<char>)
    requires
        uuid_shaped(s),
    ensures
        quote_free(s),
{
    assert forall|i: int| 0 <= i < s.len() implies s[i] != '"' by {
        assert(('0' <= s[i] <= '9') || ('a' <= s[i] <= 'f') || s[i] == '-');
    }
}

/// Reads the claims that `claims_json` writes. Anything else is refused.
#[verifier::rlimit(40)]
fn parse_claims(json: &str) -> (r: Option<(String, u64, u64)>)
    ensures
        r matches Some((s, a, b)) ==> json@ == claims_json(s@, a as nat, b as nat),
        r matches Some((s, a, b)) ==> quote_free(s@),
        forall|s: Seq<char>, a: u64, b: u64|
            #![trigger claims_json(s, a as nat, b as nat)]
            json@ == claims_json(s, a as nat, b as nat) && quote_free(s) ==> (r matches Some(
                (s2, a2, b2),
            ) && s2@ == s && a2 == a && b2 == b),
{
    let n = json.unicode_len();
    let sub_lit = "{\"sub\":\"";
    let iat_lit = "\",\"iat\":";
    let exp_lit = ",\"exp\":";
    proof {
        reveal_strlit("{\"sub\":\"");
        reveal_strlit("\",\"iat\":");
        reveal_strlit(",\"exp\":");
        assert(sub_lit@ =~= sub_open());
        assert(iat_lit@ =~= iat_open());
        assert(exp_lit@ =~= exp_open());
    }
    let ghost j = json@;
    proof {
        assert forall|s: Seq<char>, a: u64, b: u64|
            #![trigger claims_json(s, a as nat, b as nat)]
            j == claims_json(s, a as nat, b as nat) && quote_free(s) implies {
                let p = 16 + s.len() as int;
                let k0 = p + decimal(a as nat).len() as int;
                &&& j.len() == k0 + 7 + decimal(b as nat).len() + 1
                &&& j.subrange(0, 8) == sub_open()
                &&& j[8 + s.len() as int] == '"'
                &&& (forall|m: int| 8 <= m < 8 + s.len() ==> j[m] != '"')
                &&& j.subrange(8 + s.len() as int, p) == iat_open()
                &&& j[k0] == ','
                &&& (forall|m: int| p <= m < k0 ==> j[m] != ',')
                &&& j.subrange(p, k0) == decimal(a as nat)
                &&& j.subrange(k0, k0 + 7) == exp_open()
                &&& j[j.len() - 1] == '}'
                &&& j.subrange(k0 + 7, j.len() - 1) == decimal(b as nat)
                &&& j.subrange(8, 8 + s.len() as int) == s
            } by {
            let p = 16 + s.len() as int;
            let k0 = p + decimal(a as nat).len() as int;
            lemma_decimal_digits(a as nat);
            lemma_decimal_digits(b as nat);
            assert(j.subrange(0, 8) =~= sub_open());
            assert(j.subrange(8 + s.len() as int, p) =~= iat_open());
            assert(j.subrange(p, k0) =~= decimal(a as nat));
            assert(j.subrange(k0, k0 + 7) =~= exp_open());
            assert(j.subrange(k0 + 7, j.len() - 1) =~= decimal(b as nat));
            assert(j.subrange(8, 8 + s.len() as int) =~= s);
            assert forall|m: int| p <= m < k0 implies j[m] != ',' by {
                assert(j[m] == decimal(a as nat)[m - p]);
            }
        }
    }
    if n < 8 || !same_text(json.substring_char(0, 8), sub_lit) {
        return None;
    }
    let q = match find_char(json, '"', 8) {
        Some(q) => q,
        None => { return None; },
    };
    if n - q < 8 || !same_text(json.substring_char(q, q + 8), iat_lit) {
        return None;
    }
    let k = match find_char(json, ',', q + 8) {
        Some(k) => k,
        None => { return None; },
    };
    let d1 = json.substring_char(q + 8, k);
    let a = match read_decimal(d1) {
        Some(a) => a,
        None => { return None; },
    };
    let mut a_text = String::new();
    push_decimal(&mut a_text, a);
    if !same_text(a_text.as_str(), d1) {
        return None;
    }
    if n - k < 8 || !same_text(json.substring_char(k, k + 7), exp_lit) || json.get_char(n - 1)
        != '}' {
        return None;
    }
    let d2 = json.substring_char(k + 7, n - 1);
    let b = match read_decimal(d2) {
        Some(b) => b,
        None => { return None; },
    };
    let mut b_text = String::new();
    push_decimal(&mut b_text, b);
    if !same_text(b_text.as_str(), d2) {
        return None;
    }
    let sub = json.substring_char(8, q).to_owned();
    proof {
        assert(j =~= claims_json(sub@, a as nat, b as nat));
    }
    Some((sub, a, b))
}

/// `Bearer `, the scheme label in front of every token.
pub open spec fn bearer_prefix() -> Seq<char> {
    seq!['B', 'e', 'a', 'r', 'e', 'r', ' ']
}

/// `{"typ":"JWT","alg":"RS256"}`
pub open spec fn header_json() -> Seq<char> {
    seq![
        '{', '"', 't', 'y', 'p', '"', ':', '"', 'J', 'W', 'T', '"', ',', '"', 'a', 'l', 'g', '"',
        ':', '"', 'R', 'S', '2', '5', '6', '"', '}',
    ]
}

/// The first part of every token: the encoded header.
pub open spec fn header_part() -> Seq<char> {
    b64url_of(encode_utf8(header_json()))
}

/// What the signature covers: the encoded header and claims, joined by a dot.
pub open spec fn signing_input(claims: Seq<char>) -> Seq<char> {
    header_part() + seq!['.'] + claims
}

/// A header value: scheme label, header part, claims part and signature.
pub open spec fn token_text_with(head: Seq<char>, claims: Seq<char>, sig: Seq<char>) -> Seq<char> {
    bearer_prefix() + head + seq!['.'] + claims + seq!['.'] + sig
}

pub open spec fn token_text(claims: Seq<char>, sig: Seq<char>) -> Seq<char> {
    token_text_with(header_part(), claims, sig)
}

/// The encoded claims of a token issued to `sub` at time `iat`.
pub open spec fn claims_part(sub: Identity, iat: u64) -> Seq<char> {
    b64url_of(
        encode_utf8(claims_json(uuid_text_of(sub.value), iat as nat, (iat + SESSION_SECONDS) as nat)),
    )
}

/// `t` is the token that issuing for `sub` at `iat` under `private_pem` gives.
pub open spec fn issued(t: Seq<char>, sub: Identity, iat: u64, private_pem: Seq<char>) -> bool {
    let c = claims_part(sub, iat);
    let sig = rs256_signature(signing_input(c), private_pem);
    &&& sig is Some
    &&& t == token_text(c, sig.unwrap())
    &&& url_safe(header_part())
    &&& url_safe(c)
    &&& url_safe(sig.unwrap())
    &&& uuid_shaped(uuid_text_of(sub.value))
}

/// Every signature made with the private key verifies under the public key.
pub open spec fn keys_match(private_pem: Seq<char>, public_pem: Seq<char>) -> bool {
    forall|m: Seq<char>|
        #[trigger] rs256_signature(m, private_pem) is Some ==> rs256_accepts(
            rs256_signature(m, private_pem).unwrap(),
            m,
            public_pem,
        )
}

/// No dot in the text: a token part.
pub open spec fn dot_free(s: Seq<char>) -> bool {
    forall|i: int| 0 <= i < s.len() ==> s[i] != '.'
}

proof fn lemma_url_safe_dot_free(s: Seq<char>)
    requires
        url_safe(s),
    ensures
        dot_free(s),
{
    assert forall|i: int| 0 <= i < s.len() implies s[i] != '.' by {
        assert(url_safe_char(s[i]));
    }
}

/// A header value that is accepted at time `now` and names `id`: it is the
/// scheme label, the RS256 header part, a claims part and a signature joined
/// by dots; the signature verifies under the public key; the claims part
/// decodes to the claims layout with a subject that reads as `id`; and the
/// expiry time lies after `now`.
pub open spec fn token_accepted(header: Seq<char>, now: int, public_pem: Seq<char>, id: Identity) -> bool {
    exists|c: Seq<char>, sig: Seq<char>, sub: Seq<char>, iat: u64, exp: u64|
        #![trigger token_text(c, sig), claims_json(sub, iat as nat, exp as nat)]
        {
            &&& header == token_text(c, sig)
            &&& dot_free(c)
            &&& dot_free(sig)
            &&& rs256_accepts(sig, signing_input(c), public_pem)
            &&& b64url_decoded(c) == Some(encode_utf8(claims_json(sub, iat as nat, exp as nat)))
            &&& quote_free(sub)
            &&& uuid_parsed(sub) == Some(id.value)
            &&& now < exp
        }
}

/// What decoding a header value at time `now` gives: the identity it names
/// if it is accepted, else `Unauthorized`.
pub open spec fn decoded(header: Seq<char>, now: int, public_pem: Seq<char>) -> Result<Identity, ApiError> {
    if exists|id: Identity| token_accepted(header, now, public_pem, id) {
        Ok(choose|id: Identity| token_accepted(header, now, public_pem, id))
    } else {
        Err(ApiError::Unauthorized)
    }
}

/// Issues the token of `sub` at Unix time `now`, signed with the private
/// key. It fails, with `Internal`, only for a time before the epoch or a key
/// that cannot sign.
pub fn issue_token_at(sub: Identity, now: i64, private_pem: &str) -> (r: Result<String, ApiError>)
    ensures
        r is Err <==> now < 0 || rs256_signature(
            signing_input(claims_part(sub, now as u64)),
            private_pem@,
        ) is None,
        r is Err ==> r == Err::<String, ApiError>(ApiError::Internal),
        r matches Ok(t) ==> issued(t@, sub, now as u64, private_pem@),
{
    if now < 0 {
        return Err(ApiError::Internal);
    }
    let now = now as u64;
    let sub_lit = "{\"sub\":\"";
    let iat_lit = "\",\"iat\":";
    let exp_lit = ",\"exp\":";
    let head_lit = "{\"typ\":\"JWT\",\"alg\":\"RS256\"}";
    let bearer_lit = "Bearer ";
    proof {
        reveal_strlit("{\"sub\":\"");
        reveal_strlit("\",\"iat\":");
        reveal_strlit(",\"exp\":");
        reveal_strlit("{\"typ\":\"JWT\",\"alg\":\"RS256\"}");
        reveal_strlit("Bearer ");
        assert(sub_lit@ =~= sub_open());
        assert(iat_lit@ =~= iat_open());
        assert(exp_lit@ =~= exp_open());
        assert(head_lit@ =~= header_json());
        assert(bearer_lit@ =~= bearer_prefix());
    }
    let exp = now + SESSION_SECONDS;
    let sub_text = uuid_text(sub.value);
    proof {
        lemma_uuid_text_shaped(sub.value);
    }
    let mut claims = String::new();
    claims.append(sub_lit);
    claims.append(sub_text.as_str());
    claims.append(iat_lit);
    push_decimal(&mut claims, now);
    claims.append(exp_lit);
    push_decimal(&mut claims, exp);
    push_char(&mut claims, '}');
    assert(claims@ =~= claims_json(sub_text@, now as nat, exp as nat));
    let c = b64url_encode(claims.as_str());
    let head = b64url_encode(head_lit);
    let mut message = String::new();
    message.append(head.as_str());
    push_char(&mut message, '.');
    message.append(c.as_str());
    assert(message@ =~= signing_input(c@));
    match rs256_sign(message.as_str(), private_pem) {
        None => Err(ApiError::Internal),
        Some(sig) => {
            let mut t = String::new();
            t.append(bearer_lit);
            t.append(message.as_str());
            push_char(&mut t, '.');
            t.append(sig.as_str());
            assert(t@ =~= token_text(c@, sig@));
            Ok(t)
        },
    }
}

/// Issues the token of `sub` at the current time.
pub fn issue_token(sub: Identity, private_pem: &str) -> (r: Result<String, ApiError>)
    ensures
        r is Err ==> r == Err::<String, ApiError>(ApiError::Internal),
        r matches Ok(t) ==> exists|now: u64| #[trigger] issued(t@, sub, now, private_pem@),
{
    issue_token_at(sub, unix_now(), private_pem)
}

/// Cuts a header value into its claims part and signature, given the
/// expected header part.
fn split_token(header: &str, head: &str) -> (r: Option<(String, String)>)
    ensures
        r matches Some((c, sig)) ==> header@ == token_text_with(head@, c@, sig@),
        r matches Some((c, sig)) ==> dot_free(c@) && dot_free(sig@),
        forall|c: Seq<char>, sig: Seq<char>|
            #[trigger] token_text_with(head@, c, sig) == header@ && dot_free(head@) && dot_free(c)
                && dot_free(sig) ==> (r matches Some((c2, s2)) && c2@ == c && s2@ == sig),
{
    let bearer_lit = "Bearer ";
    proof {
        reveal_strlit("Bearer ");
        assert(bearer_lit@ =~= bearer_prefix());
    }
    let mut lead = String::new();
    lead.append(bearer_lit);
    lead.append(head);
    push_char(&mut lead, '.');
    let m = lead.unicode_len();
    let n = header.unicode_len();
    let ghost h = header@;
    proof {
        assert forall|c: Seq<char>, sig: Seq<char>|
            #[trigger] token_text_with(head@, c, sig) == h && dot_free(head@) && dot_free(c)
                && dot_free(sig) implies {
                &&& h.subrange(0, m as int) == lead@
                &&& h[m + c.len()] == '.'
                &&& (forall|i: int| m <= i < m + c.len() ==> h[i] != '.')
                &&& (forall|i: int| m + c.len() + 1 <= i < h.len() ==> h[i] != '.')
                &&& h.subrange(m as int, m + c.len()) == c
                &&& h.subrange(m + c.len() + 1, h.len() as int) == sig
            } by {
            assert(h.subrange(0, m as int) =~= lead@);
            assert(h.subrange(m as int, m + c.len()) =~= c);
            assert(h.subrange(m + c.len() + 1, h.len() as int) =~= sig);
            assert forall|i: int| m <= i < m + c.len() implies h[i] != '.' by {
                assert(h[i] == c[i - m]);
            }
            assert(h[m + c.len()] == '.');
            assert forall|i: int| m + c.len() + 1 <= i < h.len() implies h[i] != '.' by {
                assert(h[i] == sig[i - m - c.len() - 1]);
            }
        }
    }
    if n < m || !same_text(header.substring_char(0, m), lead.as_str()) {
        return None;
    }
    let j = match find_char(header, '.', m) {
        Some(j) => j,
        None => { return None; },
    };
    if find_char(header, '.', j + 1).is_some() {
        return None;
    }
    let c = header.substring_char(m, j).to_owned();
    let sig = header.substring_char(j + 1, n).to_owned();
    assert forall|i: int| 0 <= i < c@.len() implies c@[i] != '.' by {
        assert(c@[i] == h[m + i]);
    }
    assert forall|i: int| 0 <= i < sig@.len() implies sig@[i] != '.' by {
        assert(sig@[i] == h[j + 1 + i]);
    }
    assert(h =~= h.subrange(0, m as int) + h.subrange(m as int, j as int) + seq!['.']
        + h.subrange(j + 1, n as int));
    assert(lead@ =~= bearer_prefix() + head@ + seq!['.']);
    assert(h =~= token_text_with(head@, c@, sig@));
    Some((c, sig))
}

/// Whether a header value starts with the scheme label.
pub open spec fn has_bearer_prefix(header: Seq<char>) -> bool {
    header.len() >= 7 && header.take(7) == bearer_prefix()
}

/// Decodes a header value at Unix time `now`: strips the scheme label,
/// checks the RS256 signature with the public key, reads the claims, and
/// refuses a token whose expiry time is not after `now`. Every failure is the
/// same `Unauthorized`; an accepted token gives the identity it names.
fn decode_checked(header: &str, now: i64, public_pem: &str) -> (r: Result<Identity, ApiError>)
    ensures
        r is Err ==> r == Err::<Identity, ApiError>(ApiError::Unauthorized),
        r matches Ok(id) ==> token_accepted(header@, now as int, public_pem@, id),
        forall|id: Identity| #[trigger] token_accepted(header@, now as int, public_pem@, id) ==> r == Ok::<
            Identity,
            ApiError,
        >(id),
        !has_bearer_prefix(header@) ==> r is Err,
        forall|sub: Identity, iat: u64, private_pem: Seq<char>|
            #[trigger] issued(header@, sub, iat, private_pem) && keys_match(private_pem, public_pem@)
                && iat <= u64::MAX - SESSION_SECONDS && now < iat + SESSION_SECONDS ==> r == Ok::<
                Identity,
                ApiError,
            >(sub),
        forall|c: Seq<char>, sig: Seq<char>, sub: Seq<char>, iat: u64, exp: u64|
            #![trigger token_text(c, sig), claims_json(sub, iat as nat, exp as nat)]
            header@ == token_text(c, sig) && dot_free(c) && dot_free(sig) && quote_free(sub)
                && b64url_decoded(c) == Some(encode_utf8(claims_json(sub, iat as nat, exp as nat))) && exp <= now
                ==> r is Err,
{
    let head_lit = "{\"typ\":\"JWT\",\"alg\":\"RS256\"}";
    proof {
        reveal_strlit("{\"typ\":\"JWT\",\"alg\":\"RS256\"}");
        assert(head_lit@ =~= header_json());
    }
    let head = b64url_encode(head_lit);
    proof {
        lemma_url_safe_dot_free(head@);
        assert forall|sub: Identity, iat: u64, private_pem: Seq<char>|
            #[trigger] issued(header@, sub, iat, private_pem) implies quote_free(
                uuid_text_of(sub.value),
            ) && dot_free(claims_part(sub, iat)) && dot_free(
                rs256_signature(signing_input(claims_part(sub, iat)), private_pem).unwrap(),
            ) by {
            lemma_uuid_quote_free(uuid_text_of(sub.value));
            lemma_url_safe_dot_free(claims_part(sub, iat));
            lemma_url_safe_dot_free(
                rs256_signature(signing_input(claims_part(sub, iat)), private_pem).unwrap(),
            );
        }
    }
    let (c, sig) = match split_token(header, head.as_str()) {
        Some(parts) => parts,
        None => { return Err(ApiError::Unauthorized); },
    };
    let mut message = String::new();
    message.append(head.as_str());
    push_char(&mut message, '.');
    message.append(c.as_str());
    assert(message@ =~= signing_input(c@));
    assert(header@ == token_text(c@, sig@));
    assert(header@.take(7) =~= bearer_prefix());
    if !rs256_verify(sig.as_str(), message.as_str(), public_pem) {
        return Err(ApiError::Unauthorized);
    }
    let bytes = match b64url_decode(c.as_str()) {
        Some(bytes) => bytes,
        None => { return Err(ApiError::Unauthorized); },
    };
    let json = match utf8_text(bytes) {
        Some(json) => json,
        None => { return Err(ApiError::Unauthorized); },
    };
    let (sub_text, iat, exp) = match parse_claims(json.as_str()) {
        Some(claims) => claims,
        None => { return Err(ApiError::Unauthorized); },
    };
    let id = match uuid_parse(sub_text.as_str()) {
        Some(v) => Identity { value: v },
        None => { return Err(ApiError::Unauthorized); },
    };
    if now < 0 || (now as u64) < exp {
        assert(token_accepted(header@, now as int, public_pem@, id)) by {
            assert(b64url_decoded(c@) == Some(encode_utf8(claims_json(sub_text@, iat as nat, exp as nat))));
        }
        Ok(id)
    } else {
        Err(ApiError::Unauthorized)
    }
}

/// Decodes a header value at Unix time `now`. The result is a function of
/// the header, the time and the key: the identity that an accepted token
/// names, else `Unauthorized`. A token that `issue_token_at` wrote with the
/// matching private key decodes to its subject until it expires.
pub fn decode_token_at(header: &str, now: i64, public_pem: &str) -> (r: Result<Identity, ApiError>)
    ensures
        r == decoded(header@, now as int, public_pem@),
        r is Err ==> r == Err::<Identity, ApiError>(ApiError::Unauthorized),
        !has_bearer_prefix(header@) ==> r is Err,
        forall|sub: Identity, iat: u64, private_pem: Seq<char>|
            #[trigger] issued(header@, sub, iat, private_pem) && keys_match(private_pem, public_pem@)
                && iat <= u64::MAX - SESSION_SECONDS && now < iat + SESSION_SECONDS ==> r == Ok::<
                Identity,
                ApiError,
            >(sub),
        forall|c: Seq<char>, sig: Seq<char>, sub: Seq<char>, iat: u64, exp: u64|
            #![trigger token_text(c, sig), claims_json(sub, iat as nat, exp as nat)]
            header@ == token_text(c, sig) && dot_free(c) && dot_free(sig) && quote_free(sub)
                && b64url_decoded(c) == Some(encode_utf8(claims_json(sub, iat as nat, exp as nat))) && exp <= now
                ==> r is Err,
{
    let res = decode_checked(header, now, public_pem);
    proof {
        if exists|id: Identity| token_accepted(header@, now as int, public_pem@, id) {
            let id = choose|id: Identity| token_accepted(header@, now as int, public_pem@, id);
            assert(res == Ok::<Identity, ApiError>(id));
        }
    }
    res
}

/// Decodes a header value at the current time.
pub fn decode_token(header: &str, public_pem: &str) -> (r: Result<Identity, ApiError>)
    ensures
        r is Err ==> r == Err::<Identity, ApiError>(ApiError::Unauthorized),
        !has_bearer_prefix(header@) ==> r is Err,
        exists|now: int| r == #[trigger] decoded(header@, now, public_pem@),
{
    let now = unix_now();
    decode_token_at(header, now, public_pem)
}

} // verus!
