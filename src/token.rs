//! Access tokens: a claim set signed with HMAC-SHA256 in the compact form
//! `header.claims.signature`, where header and claims are the base64url
//! texts of their JSON encodings.
use crate::api::Claims;
use hmac::Mac;
use jwt::{SigningAlgorithm, VerifyingAlgorithm};
use vstd::prelude::*;
use vstd::string::*;

verus! {

/// Why a token could not be issued or accepted.
#[derive(Debug, Clone, Copy, PartialEq, Eq, Structural)]
pub enum TokenError {
    /// The token is not three components joined by dots.
    Malformed,
    /// The signature does not match the header, claims and secret.
    BadSignature,
    /// The token's expiry has passed.
    Expired,
    /// The expiry does not fit in a timestamp.
    ExpiryOutOfRange,
}

/// The HMAC-SHA256 signature of `header.claims` under `secret`, in unpadded base64url.
pub uninterp spec fn hs256_signature(secret: Seq<u8>, header: Seq<char>, claims: Seq<char>) -> Seq<char>;

/// Whether a text holds no dot.
pub open spec fn no_dot(s: Seq<char>) -> bool {
    forall|i: int| 0 <= i < s.len() ==> s[i] != '.'
}

/// `n` padding characters `=`.
pub open spec fn padding(n: nat) -> Seq<char> {
    Seq::new(n, |_i: int| '=')
}

/// Relies on `hmac::Hmac::<sha2::Sha256>::new_from_slice`, which takes a key
/// of any length and never fails, and on jwt's `SigningAlgorithm::sign` for
/// it, which always succeeds: the unpadded base64url text of the MAC over
/// `header`, a dot and `claims`. That alphabet has no dot.
#[verifier::external_body]
fn hs256_sign(secret: &[u8], header: &str, claims: &str) -> (r: Option<String>)
    ensures
        r is Some,
        r->0@ == hs256_signature(secret@, header@, claims@),
        no_dot(r->0@),
{
    match hmac::Hmac::<sha2::Sha256>::new_from_slice(secret) {
        Ok(key) => SigningAlgorithm::sign(&key, header, claims).ok(),
        Err(_) => None,
    }
}

/// Relies on `hmac::Hmac::<sha2::Sha256>::new_from_slice` and jwt's
/// `VerifyingAlgorithm::verify` for it, which decodes the signature (base64
/// 0.13, unpadded base64url, canonical final symbol, trailing `=` tolerated)
/// and compares it with the MAC over `header`, a dot and `claims`: it accepts
/// the text that `hs256_sign` gives for the same secret, header and claims,
/// and accepts nothing but that text, possibly followed by `=` padding.
#[verifier::external_body]
fn hs256_verify(secret: &[u8], header: &str, claims: &str, signature: &str) -> (r: bool)
    ensures
        signature@ == hs256_signature(secret@, header@, claims@) ==> r,
        r ==> exists|n: nat| signature@ == hs256_signature(secret@, header@, claims@) + padding(n),
{
    match hmac::Hmac::<sha2::Sha256>::new_from_slice(secret) {
        Ok(key) => match VerifyingAlgorithm::verify(&key, header, claims, signature) {
            Ok(b) => b,
            Err(_) => false,
        },
        Err(_) => false,
    }
}

/// The compact token text of three components.
pub open spec fn token_text(header: Seq<char>, claims: Seq<char>, signature: Seq<char>) -> Seq<char> {
    header + seq!['.'] + claims + seq!['.'] + signature
}

/// Whether `t` has dots at `i` and `j` and nowhere else.
pub open spec fn two_dots_at(t: Seq<char>, i: int, j: int) -> bool {
    &&& 0 <= i < j < t.len()
    &&& t[i] == '.'
    &&& t[j] == '.'
    &&& forall|k: int| 0 <= k < t.len() && k != i && k != j ==> t[k] != '.'
}

/// The three components of a token text, if it has exactly two dots.
pub open spec fn token_parts(t: Seq<char>) -> Option<(Seq<char>, Seq<char>, Seq<char>)> {
    if exists|i: int, j: int| two_dots_at(t, i, j) {
        let (i, j) = choose|i: int, j: int| two_dots_at(t, i, j);
        Some((t.subrange(0, i), t.subrange(i + 1, j), t.subrange(j + 1, t.len() as int)))
    } else {
        None
    }
}

/// Joins the base64url header and claims texts with their signature under
/// `secret`. When neither text holds a dot, the token splits back into them
/// and the signature, so `verify_token` with the same secret gives them back.
pub fn create_signed_token(header: &str, claims: &str, secret: &str) -> (r: String)
    ensures
        r@ == token_text(header@, claims@, hs256_signature(secret.spec_bytes(), header@, claims@)),
        no_dot(hs256_signature(secret.spec_bytes(), header@, claims@)),
        no_dot(header@) && no_dot(claims@) ==> token_parts(r@) == Some(
            (header@, claims@, hs256_signature(secret.spec_bytes(), header@, claims@)),
        ),
{
    let sig = hs256_sign(secret.as_bytes(), header, claims).unwrap();
    proof {
        reveal_strlit(".");
        if no_dot(header@) && no_dot(claims@) {
            lemma_token_round_trip(header@, claims@, secret.spec_bytes());
        }
    }
    let mut t = header.to_owned();
    t.append(".");
    t.append(claims);
    t.append(".");
    t.append(sig.as_str());
    t
}

/// Splits a token text at its two dots.
pub fn split_token(t: &str) -> (r: Option<(String, String, String)>)
    ensures
        match r {
            Some(p) => token_parts(t@) == Some((p.0@, p.1@, p.2@)),
            None => token_parts(t@) is None,
        },
{
    let n = t.unicode_len();
    let mut count: usize = 0;
    let mut p1: usize = 0;
    let mut p2: usize = 0;
    let mut i: usize = 0;
    while i < n
        invariant
            n == t@.len(),
            i <= n,
            count <= 2,
            count >= 1 ==> p1 < i && t@[p1 as int] == '.',
            count == 2 ==> p1 < p2 < i && t@[p2 as int] == '.',
            forall|k: int| 0 <= k < i && t@[k] == '.' ==> (count >= 1 && k == p1) || (count == 2 && k == p2),
        decreases n - i,
    {
        if t.get_char(i) == '.' {
            if count == 2 {
                proof {
                    assert forall|a: int, b: int| !two_dots_at(t@, a, b) by {
                        if two_dots_at(t@, a, b) {
                            assert(t@[p1 as int] == '.' && t@[p2 as int] == '.' && t@[i as int] == '.');
                        }
                    }
                }
                return None;
            } else if count == 1 {
                p2 = i;
            } else {
                p1 = i;
            }
            count = count + 1;
        }
        i = i + 1;
    }
    if count != 2 {
        proof {
            assert forall|a: int, b: int| !two_dots_at(t@, a, b) by {
                if two_dots_at(t@, a, b) {
                    assert(t@[a] == '.' && t@[b] == '.');
                }
            }
        }
        return None;
    }
    proof {
        assert(two_dots_at(t@, p1 as int, p2 as int));
        let (a, b) = choose|a: int, b: int| two_dots_at(t@, a, b);
        assert(t@[a] == '.' && t@[b] == '.');
        assert(a == p1 && b == p2);
    }
    let h = t.substring_char(0, p1).to_owned();
    let c = t.substring_char(p1 + 1, p2).to_owned();
    let s = t.substring_char(p2 + 1, n).to_owned();
    Some((h, c, s))
}

/// Checks a token's signature under `secret` and gives back its header and
/// claims texts, for the caller to decode. A token whose signature is not the
/// one `secret` gives for its header and claims (up to `=` padding) is refused.
pub fn verify_token(token: &str, secret: &str) -> (r: Result<(String, String), TokenError>)
    ensures
        match token_parts(token@) {
            None => r == Err::<(String, String), TokenError>(TokenError::Malformed),
            Some(p) => {
                &&& r matches Ok(v) ==> v.0@ == p.0 && v.1@ == p.1
                &&& r is Ok ==> exists|n: nat| p.2 == hs256_signature(secret.spec_bytes(), p.0, p.1) + padding(n)
                &&& r matches Err(e) ==> e == TokenError::BadSignature
                &&& p.2 == hs256_signature(secret.spec_bytes(), p.0, p.1) ==> r is Ok
            },
        },
{
    let (h, c, s) = match split_token(token) {
        Some(p) => p,
        None => return Err(TokenError::Malformed),
    };
    if hs256_verify(secret.as_bytes(), h.as_str(), c.as_str(), s.as_str()) {
        Ok((h, c))
    } else {
        Err(TokenError::BadSignature)
    }
}

/// A token issued for a header and claims text without dots splits back into
/// them and its signature, so checking it with the same secret gives them back.
pub proof fn lemma_token_round_trip(header: Seq<char>, claims: Seq<char>, secret: Seq<u8>)
    requires
        no_dot(header),
        no_dot(claims),
        no_dot(hs256_signature(secret, header, claims)),
    ensures
        token_parts(token_text(header, claims, hs256_signature(secret, header, claims)))
            == Some((header, claims, hs256_signature(secret, header, claims))),
{
    let sig = hs256_signature(secret, header, claims);
    let t = token_text(header, claims, sig);
    let i = header.len() as int;
    let j = i + 1 + claims.len();
    assert forall|k: int| 0 <= k < t.len() && k != i && k != j implies t[k] != '.' by {
        if k < i {
            assert(t[k] == header[k]);
        } else if k < j {
            assert(t[k] == claims[k - i - 1]);
        } else {
            assert(t[k] == sig[k - j - 1]);
        }
    }
    assert(two_dots_at(t, i, j));
    let (a, b) = choose|a: int, b: int| two_dots_at(t, a, b);
    assert(t[a] == '.' && t[b] == '.');
    assert(t.subrange(0, i) =~= header);
    assert(t.subrange(i + 1, j) =~= claims);
    assert(t.subrange(j + 1, t.len() as int) =~= sig);
}

/// The claims for a new token: the expiry lies `ttl_minutes` after `now`, or
/// is absent when no lifetime is configured.
pub fn issue_claims(
    sub: &String,
    name: &String,
    contact_info: &String,
    now: i64,
    ttl_minutes: Option<i64>,
) -> (r: Result<Claims, TokenError>)
    ensures
        match ttl_minutes {
            None => (r matches Ok(c) && c.exp is None),
            Some(m) => if i64::MIN <= now + 60 * m <= i64::MAX {
                (r matches Ok(c) && c.exp == Some((now + 60 * m) as i64))
            } else {
                r == Err::<Claims, TokenError>(TokenError::ExpiryOutOfRange)
            },
        },
        r matches Ok(c) ==> c.sub@ == sub@ && c.name@ == name@ && c.contact_info@ == contact_info@,
{
    let exp = match ttl_minutes {
        None => None,
        Some(m) => {
            let e = now as i128 + (m as i128) * 60;
            if e < i64::MIN as i128 || e > i64::MAX as i128 {
                return Err(TokenError::ExpiryOutOfRange);
            }
            Some(e as i64)
        },
    };
    Ok(Claims { sub: sub.clone(), name: name.clone(), contact_info: contact_info.clone(), exp })
}

/// Accepts claims whose expiry, if any, lies after `now`.
pub fn check_expiry(claims: Claims, now: i64) -> (r: Result<Claims, TokenError>)
    ensures
        match claims.exp {
            Some(e) if now >= e => r == Err::<Claims, TokenError>(TokenError::Expired),
            _ => r == Ok::<Claims, TokenError>(claims),
        },
{
    match claims.exp {
        Some(e) => {
            if now >= e {
                return Err(TokenError::Expired);
            }
        },
        None => {},
    }
    Ok(claims)
}

/// Relies on `chrono::Utc::now`, read as whole seconds since the epoch.
#[verifier::external_body]
fn now_timestamp() -> (r: i64) {
    chrono::Utc::now().timestamp()
}

/// Issues claims that expire `ttl_minutes` from now.
pub fn issue_claims_now(sub: &String, name: &String, contact_info: &String, ttl_minutes: Option<i64>) -> (r: Result<Claims, TokenError>)
    ensures
        ttl_minutes is None ==> (r matches Ok(c) && c.exp is None),
        ttl_minutes is Some ==> (r matches Ok(c) ==> c.exp is Some),
        r is Err ==> r == Err::<Claims, TokenError>(TokenError::ExpiryOutOfRange),
        r matches Ok(c) ==> c.sub@ == sub@ && c.name@ == name@ && c.contact_info@ == contact_info@,
{
    issue_claims(sub, name, contact_info, now_timestamp(), ttl_minutes)
}

/// Accepts claims that have not expired by now.
pub fn check_expiry_now(claims: Claims) -> (r: Result<Claims, TokenError>)
    ensures
        claims.exp is None ==> r == Ok::<Claims, TokenError>(claims),
        r is Err ==> r == Err::<Claims, TokenError>(TokenError::Expired),
        r is Ok ==> r == Ok::<Claims, TokenError>(claims),
{
    check_expiry(claims, now_timestamp())
}

} // verus!
