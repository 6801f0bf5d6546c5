//! The stateless signed-session-token codec. A token is three dot-joined
//! segments — base64url(header) . base64url(claims JSON) . signature — where
//! the signature is the base64url HMAC-SHA-256 tag of the first two segments
//! under the process-wide secret. `issue` carries the round-trip and
//! tamper-detection laws in its contract; `verify` is exact about every
//! failure.

use vstd::prelude::*;
use crate::claims::{
    claims_json, lemma_parse_of_ser, parse_claims, spec_parse_claims, spec_ser_claims, ClaimsV,
    SessionClaims, User,
};
use crate::strutil::{find_char, lemma_find, spec_find, str_eq};

verus! {

/// Why verification of a session token failed.
#[derive(Clone, Copy, PartialEq, Eq, Structural, Debug)]
pub enum SessionError {
    /// The token is not three well-formed segments.
    Malformed,
    /// The recomputed tag does not match the signature segment.
    InvalidSignature,
    /// The claims' expiry lies before `now`.
    Expired,
}

/// What base64url (no padding) encoding returns for a string's UTF-8 bytes.
pub uninterp spec fn b64u_of(s: Seq<char>) -> Seq<char>;

/// What base64url (no padding) decoding, followed by UTF-8 decoding, returns.
pub uninterp spec fn b64u_dec_of(s: Seq<char>) -> Option<Seq<char>>;

/// What standard base64 (with padding) decoding, followed by UTF-8 decoding,
/// returns; used for HTTP Basic credentials.
pub uninterp spec fn b64s_dec_of(s: Seq<char>) -> Option<Seq<char>>;

/// What the HMAC-SHA-256 tag of `msg` under `secret`, base64url encoded,
/// comes to; a function of the two arguments alone.
pub uninterp spec fn sig_of(secret: Seq<char>, msg: Seq<char>) -> Seq<char>;

pub open spec fn dot_free(s: Seq<char>) -> bool {
    forall|i: int| 0 <= i < s.len() ==> s[i] != '.'
}

/// Relies on base64's `URL_SAFE_NO_PAD` engine: the encoding is a function
/// of the input alone, uses only the URL-safe alphabet (so never a `.`), and
/// decoding restores the input.
#[verifier::external_body]
fn b64u_encode(s: &str) -> (r: String)
    ensures
        r@ == b64u_of(s@),
        b64u_dec_of(r@) == Some(s@),
        dot_free(r@),
{
    base64::Engine::encode(&base64::engine::general_purpose::URL_SAFE_NO_PAD, s.as_bytes())
}

/// Relies on base64's `URL_SAFE_NO_PAD` decode and `String::from_utf8`: the
/// result is a function of the input alone.
#[verifier::external_body]
fn b64u_decode(s: &str) -> (r: Option<String>)
    ensures
        match r {
            Some(t) => b64u_dec_of(s@) == Some(t@),
            None => b64u_dec_of(s@) is None,
        },
{
    match base64::Engine::decode(&base64::engine::general_purpose::URL_SAFE_NO_PAD, s.as_bytes()) {
        Ok(bytes) => String::from_utf8(bytes).ok(),
        Err(_) => None,
    }
}

/// Relies on base64's `STANDARD` decode (RFC 4648 with padding) and
/// `String::from_utf8`: the result is a function of the input alone.
#[verifier::external_body]
pub(crate) fn b64s_decode(s: &str) -> (r: Option<String>)
    ensures
        match r {
            Some(t) => b64s_dec_of(s@) == Some(t@),
            None => b64s_dec_of(s@) is None,
        },
{
    match base64::Engine::decode(&base64::engine::general_purpose::STANDARD, s.as_bytes()) {
        Ok(bytes) => String::from_utf8(bytes).ok(),
        Err(_) => None,
    }
}

/// Relies on hmac and sha2 (HMAC-SHA-256 accepts keys of any length) and on
/// base64's `URL_SAFE_NO_PAD` encoding of the 32-byte tag: the signature is a
/// function of the secret and the message alone and never contains a `.`.
#[verifier::external_body]
fn compute_sig(secret: &str, msg: &str) -> (r: String)
    ensures
        r@ == sig_of(secret@, msg@),
        dot_free(r@),
{
    let mut mac = <hmac::Hmac<sha2::Sha256> as hmac::KeyInit>::new_from_slice(secret.as_bytes())
        .expect("HMAC accepts keys of any length");
    hmac::Mac::update(&mut mac, msg.as_bytes());
    let tag = hmac::Mac::finalize(mac).into_bytes();
    base64::Engine::encode(&base64::engine::general_purpose::URL_SAFE_NO_PAD, tag)
}

/// The fixed token header.
pub open spec fn header_json() -> Seq<char> {
    "{\"alg\":\"HS256\",\"typ\":\"JWT\"}"@
}

/// The two signed segments of a token for the given claims.
pub open spec fn spec_signing_input(c: ClaimsV) -> Seq<char> {
    b64u_of(header_json()) + seq!['.'] + b64u_of(spec_ser_claims(c))
}

/// The full token for the given claims under the given secret.
pub open spec fn spec_issue(c: ClaimsV, secret: Seq<char>) -> Seq<char> {
    spec_signing_input(c) + seq!['.'] + sig_of(secret, spec_signing_input(c))
}

/// Splits a token at its first two dots; defined only when exactly two dots
/// occur.
pub open spec fn spec_split3(t: Seq<char>) -> Option<(Seq<char>, Seq<char>, Seq<char>)> {
    let d1 = spec_find(t, 0, '.');
    if d1 >= t.len() {
        None
    } else {
        let d2 = spec_find(t, d1 + 1, '.');
        if d2 >= t.len() {
            None
        } else {
            let rest = t.subrange(d2 + 1, t.len() as int);
            if dot_free(rest) {
                Some((t.subrange(0, d1), t.subrange(d1 + 1, d2), rest))
            } else {
                None
            }
        }
    }
}

/// What verification makes of a token: the exact outcome for every input.
pub open spec fn spec_verify(t: Seq<char>, secret: Seq<char>, now: u64) -> Result<
    ClaimsV,
    SessionError,
> {
    match spec_split3(t) {
        None => Err(SessionError::Malformed),
        Some((h, p, g)) => if h != b64u_of(header_json()) {
            Err(SessionError::Malformed)
        } else {
            match b64u_dec_of(p) {
                None => Err(SessionError::Malformed),
                Some(j) => match spec_parse_claims(j) {
                    None => Err(SessionError::Malformed),
                    Some(c) => if g != sig_of(secret, h + seq!['.'] + p) {
                        Err(SessionError::InvalidSignature)
                    } else if now > c.exp {
                        Err(SessionError::Expired)
                    } else {
                        Ok(c)
                    },
                },
            }
        },
    }
}

/// Splitting a three-part concatenation whose first two parts are dot-free
/// recovers the parts, provided the tail is dot-free too; otherwise the
/// token does not split.
pub proof fn lemma_split3_concat(a: Seq<char>, b: Seq<char>, g: Seq<char>)
    requires
        dot_free(a),
        dot_free(b),
    ensures
        spec_split3(a + seq!['.'] + b + seq!['.'] + g) == (if dot_free(g) {
            Some((a, b, g))
        } else {
            None::<(Seq<char>, Seq<char>, Seq<char>)>
        }),
{
    let t = a + seq!['.'] + b + seq!['.'] + g;
    let d1 = a.len() as int;
    let d2 = a.len() as int + 1 + b.len();
    assert(t.len() == a.len() + 1 + b.len() + 1 + g.len());
    assert(t[d1] == '.');
    assert(forall|k: int| 0 <= k < d1 ==> t[k] == a[k] && t[k] != '.');
    crate::strutil::lemma_find_is(t, 0, d1, '.');
    assert(t[d2] == '.');
    assert(forall|k: int| d1 + 1 <= k < d2 ==> t[k] == b[k - (d1 + 1)] && t[k] != '.');
    crate::strutil::lemma_find_is(t, d1 + 1, d2, '.');
    let rest = t.subrange(d2 + 1, t.len() as int);
    assert(rest =~= g);
    assert(t.subrange(0, d1) =~= a);
    assert(t.subrange(d1 + 1, d2) =~= b);
}

/// Issues a signed session token.
///
/// The contract carries the codec's laws: for every `now`, verifying the
/// issued token under the same secret yields exactly the claims (or
/// `Expired` once `now` passes the expiry); and replacing the signature
/// segment by anything else makes verification fail, with
/// `InvalidSignature` for any other dot-free segment and `Malformed` when
/// the replacement breaks the three-segment structure.
pub fn issue(claims: &SessionClaims, secret: &str) -> (r: String)
    ensures
        r@ == spec_issue(claims@, secret@),
        forall|now: u64|
            spec_verify(r@, secret@, now) == (if now > claims.exp {
                Err::<ClaimsV, SessionError>(SessionError::Expired)
            } else {
                Ok::<ClaimsV, SessionError>(claims@)
            }),
        forall|g2: Seq<char>, now: u64|
            g2 != sig_of(secret@, spec_signing_input(claims@)) ==> spec_verify(
                spec_signing_input(claims@) + seq!['.'] + g2,
                secret@,
                now,
            ) == (if dot_free(g2) {
                Err::<ClaimsV, SessionError>(SessionError::InvalidSignature)
            } else {
                Err::<ClaimsV, SessionError>(SessionError::Malformed)
            }),
{
    let h64 = b64u_encode("{\"alg\":\"HS256\",\"typ\":\"JWT\"}");
    let ghost a = h64@;
    let json = claims_json(claims);
    let p64 = b64u_encode(json.as_str());
    let ghost p = p64@;
    let mut si = h64;
    si.append(".");
    si.append(p64.as_str());
    let ghost sin = si@;
    let g = compute_sig(secret, si.as_str());
    let ghost gs = g@;
    let mut t = si;
    t.append(".");
    t.append(g.as_str());
    proof {
        reveal_strlit(".");
        assert("."@ =~= seq!['.']);
        assert(a == b64u_of(header_json()));
        assert(p == b64u_of(spec_ser_claims(claims@)));
        assert(sin =~= spec_signing_input(claims@));
        assert(gs == sig_of(secret@, spec_signing_input(claims@)));
        assert(t@ =~= spec_issue(claims@, secret@));
        lemma_parse_of_ser(claims@);
        assert forall|now: u64|
            spec_verify(t@, secret@, now) == (if now > claims.exp {
                Err::<ClaimsV, SessionError>(SessionError::Expired)
            } else {
                Ok::<ClaimsV, SessionError>(claims@)
            }) by {
            lemma_split3_concat(a, p, gs);
            assert(t@ =~= a + seq!['.'] + p + seq!['.'] + gs);
            assert(a + seq!['.'] + p =~= sin);
        }
        assert forall|g2: Seq<char>, now: u64|
            g2 != sig_of(secret@, spec_signing_input(claims@)) implies spec_verify(
            spec_signing_input(claims@) + seq!['.'] + g2,
            secret@,
            now,
        ) == (if dot_free(g2) {
            Err::<ClaimsV, SessionError>(SessionError::InvalidSignature)
        } else {
            Err::<ClaimsV, SessionError>(SessionError::Malformed)
        }) by {
            lemma_split3_concat(a, p, g2);
            assert(spec_signing_input(claims@) + seq!['.'] + g2 =~= a + seq!['.'] + p + seq!['.']
                + g2);
            assert(a + seq!['.'] + p =~= spec_signing_input(claims@));
        }
    }
    t
}

/// Decodes and checks a session token: `Malformed` when the structure or
/// either encoded part does not decode, `InvalidSignature` when the
/// recomputed tag differs, `Expired` when `now` lies past the expiry, and
/// the embedded claims otherwise.
pub fn verify(token: &str, secret: &str, now: u64) -> (r: Result<SessionClaims, SessionError>)
    ensures
        ({
            let sv = spec_verify(token@, secret@, now);
            match r {
                Ok(c) => sv == Ok::<ClaimsV, SessionError>(c@),
                Err(e) => sv == Err::<ClaimsV, SessionError>(e),
            }
        }),
{
    proof {
        reveal_strlit(".");
        assert("."@ =~= seq!['.']);
    }
    let n = token.unicode_len();
    let d1 = find_char(token, 0, '.');
    proof {
        lemma_find(token@, 0, '.');
    }
    if d1 == n {
        return Err(SessionError::Malformed);
    }
    let d2 = find_char(token, d1 + 1, '.');
    proof {
        lemma_find(token@, d1 + 1, '.');
    }
    if d2 == n {
        return Err(SessionError::Malformed);
    }
    let d3 = find_char(token, d2 + 1, '.');
    proof {
        lemma_find(token@, d2 + 1, '.');
    }
    let ghost rest = token@.subrange(d2 + 1, n as int);
    if d3 != n {
        proof {
            assert(rest[d3 - (d2 + 1)] == '.');
        }
        return Err(SessionError::Malformed);
    }
    proof {
        assert forall|k: int| 0 <= k < rest.len() implies rest[k] != '.' by {
            assert(token@[d2 + 1 + k] != '.');
        }
    }
    let h = token.substring_char(0, d1);
    let p = token.substring_char(d1 + 1, d2);
    let g = token.substring_char(d2 + 1, n);
    assert(spec_split3(token@) == Some((h@, p@, g@)));
    let hexp = b64u_encode("{\"alg\":\"HS256\",\"typ\":\"JWT\"}");
    if !str_eq(h, hexp.as_str()) {
        return Err(SessionError::Malformed);
    }
    let pj = match b64u_decode(p) {
        Some(x) => x,
        None => {
            return Err(SessionError::Malformed);
        },
    };
    let c = match parse_claims(pj.as_str()) {
        Some(c) => c,
        None => {
            return Err(SessionError::Malformed);
        },
    };
    let mut si = h.to_owned();
    si.append(".");
    si.append(p);
    assert(si@ =~= h@ + seq!['.'] + p@);
    let gexp = compute_sig(secret, si.as_str());
    if !str_eq(g, gexp.as_str()) {
        return Err(SessionError::InvalidSignature);
    }
    if now > c.exp {
        return Err(SessionError::Expired);
    }
    Ok(c)
}

/// The claims issued to `user` at time `now` with lifetime `ttl`.
pub open spec fn spec_user_claims(u: User, now: u64, ttl: u64) -> ClaimsV {
    ClaimsV { id: u.id, name: u.name@, admin: u.is_admin, iat: now, exp: (now + ttl) as u64 }
}

/// Issues a session token for a freshly authenticated user: the claims carry
/// the user's id, name and admin flag, are issued at `now` and expire `ttl`
/// seconds later.
pub fn from_user(user: &User, secret: &str, now: u64, ttl: u64) -> (r: String)
    requires
        now + ttl <= u64::MAX,
    ensures
        r@ == spec_issue(spec_user_claims(*user, now, ttl), secret@),
{
    let claims = SessionClaims {
        id: user.id,
        name: user.name.clone(),
        admin: user.is_admin,
        iat: now,
        exp: now + ttl,
    };
    issue(&claims, secret)
}

} // verus!
