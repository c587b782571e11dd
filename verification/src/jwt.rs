//! The token codec: issuing and verifying signed, time-bound session tokens.
//!
//! A token is `b64url(header) . b64url(payload) . b64url(mac)`: the canonical
//! header, the canonical claims payload, and an HMAC-SHA256 of the first two
//! sections under the signing secret.  Framing, payload and comparison are
//! all verified; only the MAC itself is an outside call, named by
//! [`hmac_sha256_sig`].
//!
//! Verification takes the current time as an argument: a token whose
//! signature checks but whose window has passed fails with
//! [`TokenError::Expired`]; every other failure is [`TokenError::Invalid`].
//! No issuer or audience claims are carried or checked: the design is
//! single-tenant, a simplification and not an oversight.

use vstd::prelude::*;
use crate::b64::{spec_b64url, spec_b64url_parse, b64url_encode, b64url_decode, lemma_b64url_chars};
use crate::dto::{Claims, ClaimsView, role_wf};
use crate::errors::AppError;
use crate::payload::{spec_payload, spec_parse_payload, build_payload, parse_payload};
use crate::text::string_push;

verus! {

use vstd::string::StringSliceAdditionalSpecFns;

/// Why a token failed verification.  Externally both collapse to the same
/// unauthorized reply; the distinction feeds logs and the expiry tests.
#[derive(Clone, Copy, PartialEq, Eq, Structural, Debug)]
pub enum TokenError {
    Expired,
    Invalid,
}

/// The HMAC-SHA256 of a message under a key, as computed by the signing
/// library.  The result is a function of the key and message alone.
pub uninterp spec fn hmac_sha256_sig(key: Seq<char>, msg: Seq<char>) -> Seq<u8>;

/// Relies on `jsonwebtoken::crypto::sign` with `Algorithm::HS256`: it returns
/// `Ok` of the unpadded base64url encoding of the HMAC-SHA256 of the message
/// under the secret, and never fails for the HMAC algorithms.
#[verifier::external_body]
fn hs256_sign(secret: &str, message: &str) -> (r: Result<String, ()>)
    ensures
        r is Ok,
        (r matches Ok(s) ==> s@ == spec_b64url(hmac_sha256_sig(secret@, message@))),
{
    let key = jsonwebtoken::EncodingKey::from_secret(secret.as_bytes());
    match jsonwebtoken::crypto::sign(message.as_bytes(), &key, jsonwebtoken::Algorithm::HS256) {
        Ok(s) => Ok(s),
        Err(_) => Err(()),
    }
}

/// The bytes of the canonical header `{"typ":"JWT","alg":"HS256"}`.
pub open spec fn header_json() -> Seq<u8> {
    seq![
        123u8, 34, 116, 121, 112, 34, 58, 34, 74, 87, 84, 34, 44, 34, 97, 108, 103, 34, 58, 34,
        72, 83, 50, 53, 54, 34, 125,
    ]
}

/// The canonical header bytes as a vector.
fn header_json_vec() -> (v: Vec<u8>)
    ensures
        v@ == header_json(),
{
    let mut v = Vec::new();
    v.push(123);
    v.push(34);
    v.push(116);
    v.push(121);
    v.push(112);
    v.push(34);
    v.push(58);
    v.push(34);
    v.push(74);
    v.push(87);
    v.push(84);
    v.push(34);
    v.push(44);
    v.push(34);
    v.push(97);
    v.push(108);
    v.push(103);
    v.push(34);
    v.push(58);
    v.push(34);
    v.push(72);
    v.push(83);
    v.push(50);
    v.push(53);
    v.push(54);
    v.push(34);
    v.push(125);
    proof {
        assert(v@ =~= header_json());
    }
    v
}

/// The signed part of a token for given claims: encoded header, a dot, the
/// encoded payload.
pub open spec fn spec_signing_input(c: ClaimsView) -> Seq<char> {
    spec_b64url(header_json()) + seq!['.'] + spec_b64url(spec_payload(c))
}

/// The complete token for given claims under a secret.
pub open spec fn spec_token(c: ClaimsView, secret: Seq<char>) -> Seq<char> {
    spec_signing_input(c) + seq!['.'] + spec_b64url(
        hmac_sha256_sig(secret, spec_signing_input(c)),
    )
}

/// The first position at or after `i` that holds a section dot.
pub open spec fn sect_end(s: Seq<char>, i: int) -> int
    decreases s.len() - i when 0 <= i <= s.len()
{
    if i >= s.len() || s[i] == '.' {
        i
    } else {
        sect_end(s, i + 1)
    }
}

/// When no character of `[i, j)` is a dot and the one at `j` (if any) is,
/// the scan from `i` ends exactly at `j`.
pub proof fn lemma_sect_end_is(s: Seq<char>, i: int, j: int)
    requires
        0 <= i <= j <= s.len(),
        forall|k: int| i <= k < j ==> #[trigger] s[k] != '.',
        j == s.len() || s[j] == '.',
    ensures
        sect_end(s, i) == j,
    decreases j - i,
{
    if i < j {
        lemma_sect_end_is(s, i + 1, j);
    }
}

/// The outcome of verifying a token string under a secret at a time.
///
/// The codec accepts exactly its own canonical form: the canonical header,
/// a canonical payload, and the correct signature over the first two
/// sections.  A structurally sound, correctly signed token whose expiry has
/// passed fails as expired; everything else fails as invalid.
pub open spec fn spec_verify_token(t: Seq<char>, secret: Seq<char>, now: u64) -> Result<
    ClaimsView,
    TokenError,
> {
    if !vstd::utf8::is_ascii_chars(t) {
        Err(TokenError::Invalid)
    } else {
        let d1 = sect_end(t, 0);
        if d1 >= t.len() || t.subrange(0, d1) != spec_b64url(header_json()) {
            Err(TokenError::Invalid)
        } else {
            let d2 = sect_end(t, d1 + 1);
            if d2 >= t.len() {
                Err(TokenError::Invalid)
            } else {
                match spec_b64url_parse(t.subrange(d1 + 1, d2)) {
                    None => Err(TokenError::Invalid),
                    Some(pb) => match spec_parse_payload(pb) {
                        None => Err(TokenError::Invalid),
                        Some(cv) => {
                            let expected = spec_b64url(
                                hmac_sha256_sig(secret, t.subrange(0, d2)),
                            );
                            if t.subrange(d2 + 1, t.len() as int) != expected {
                                Err(TokenError::Invalid)
                            } else if now > cv.exp {
                                Err(TokenError::Expired)
                            } else {
                                Ok(cv)
                            }
                        },
                    },
                }
            }
        }
    }
}

/// Issuing then verifying round-trips: a canonical token for well-formed
/// claims, verified under the same secret, yields exactly those claims while
/// the window is open, and fails as expired — never as invalid — at any time
/// past the expiry.
#[verifier::rlimit(60)]
pub proof fn lemma_token_verify_issue(c: ClaimsView, secret: Seq<char>, now: u64)
    requires
        role_wf(c.role),
    ensures
        spec_verify_token(spec_token(c, secret), secret, now) == (if now <= c.exp {
            Ok(c)
        } else {
            Err::<ClaimsView, TokenError>(TokenError::Expired)
        }),
{
    let hb = spec_b64url(header_json());
    let pl = spec_payload(c);
    let pb = spec_b64url(pl);
    let si = spec_signing_input(c);
    let mac = hmac_sha256_sig(secret, si);
    let sig = spec_b64url(mac);
    let t = spec_token(c, secret);
    lemma_b64url_chars(header_json());
    lemma_b64url_chars(pl);
    lemma_b64url_chars(mac);
    let d1 = hb.len() as int;
    let d2 = d1 + 1 + pb.len() as int;
    let n = t.len() as int;
    assert(n == d2 + 1 + sig.len());
    assert(t[d1] == '.');
    assert(t[d2] == '.');
    assert(vstd::utf8::is_ascii_chars(t)) by {
        assert forall|i: int| 0 <= i < t.len() implies '\0' <= #[trigger] t[i] <= '\u{7f}' by {
            if i < d1 {
                assert(t[i] == hb[i]);
            } else if i == d1 {
            } else if i < d2 {
                assert(t[i] == pb[i - d1 - 1]);
            } else if i == d2 {
            } else {
                assert(t[i] == sig[i - d2 - 1]);
            }
        }
    }
    assert forall|k: int| 0 <= k < d1 implies #[trigger] t[k] != '.' by {
        assert(t[k] == hb[k]);
    }
    lemma_sect_end_is(t, 0, d1);
    assert(t.subrange(0, d1) =~= hb);
    assert forall|k: int| d1 + 1 <= k < d2 implies #[trigger] t[k] != '.' by {
        assert(t[k] == pb[k - d1 - 1]);
    }
    lemma_sect_end_is(t, d1 + 1, d2);
    assert(t.subrange(d1 + 1, d2) =~= pb);
    crate::b64::lemma_b64url_roundtrip(pl);
    crate::payload::lemma_payload_roundtrip(c);
    assert(t.subrange(0, d2) =~= si);
    assert(t.subrange(d2 + 1, n) =~= sig);
    assert(spec_verify_token(t, secret, now) == (if now <= c.exp {
        Ok::<ClaimsView, TokenError>(c)
    } else {
        Err::<ClaimsView, TokenError>(TokenError::Expired)
    }));
}

/// Issues a token for a subject and role, valid for twenty-four hours from
/// `now`.  The result is exactly the canonical token of those claims.
pub fn create_jwt(user_id: i32, user_role: String, secret: &str, now: u64) -> (r: Result<
    String,
    AppError,
>)
    requires
        role_wf(user_role@),
        now + 86400 <= u64::MAX,
    ensures
        r is Ok,
        (r matches Ok(t) ==> t@ == spec_token(
            ClaimsView { user_id, exp: (now + 86400) as u64, iat: now, role: user_role@ },
            secret@,
        )),
{
    let claims = Claims { user_id, exp: now + 86400, iat: now, role: user_role };
    let header = header_json_vec();
    let payload = build_payload(&claims);
    let hb = b64url_encode(header.as_slice());
    let pb = b64url_encode(payload.as_slice());
    let mut si = hb;
    string_push(&mut si, '.');
    let si = si.concat(pb.as_str());
    proof {
        assert(si@ =~= spec_signing_input(claims@));
    }
    match hs256_sign(secret, si.as_str()) {
        Ok(sig) => {
            let mut token = si;
            string_push(&mut token, '.');
            let token = token.concat(sig.as_str());
            proof {
                assert(token@ =~= spec_token(claims@, secret@));
            }
            Ok(token)
        },
        Err(_) => Err(AppError::internal_error("token signing failed")),
    }
}

/// Whether `s` holds exactly the characters of `pat` starting at `at`.
fn ascii_eq_at(s: &str, at: usize, pat: &str) -> (r: bool)
    requires
        s.is_ascii(),
        pat.is_ascii(),
        at + pat@.len() <= s@.len(),
    ensures
        r == (s@.subrange(at as int, at + pat@.len()) == pat@),
{
    let sn = s.unicode_len();
    let m = pat.unicode_len();
    let mut j: usize = 0;
    while j < m
        invariant
            s.is_ascii(),
            pat.is_ascii(),
            m == pat@.len(),
            at + m <= s@.len(),
            sn == s@.len(),
            j <= m,
            forall|k: int| 0 <= k < j ==> s@[at + k] == #[trigger] pat@[k],
        decreases m - j,
    {
        let a = s.get_ascii(at + j);
        let b = pat.get_ascii(j);
        if a != b {
            proof {
                assert(s@[at + j as int] != pat@[j as int]);
                assert(s@.subrange(at as int, at + pat@.len())[j as int] != pat@[j as int]);
            }
            return false;
        }
        proof {
            broadcast use vstd::utf8::char_u32_cast;
            broadcast use vstd::utf8::char_is_scalar;
            broadcast use vstd::utf8::is_ascii_chars_nat_bound;

            let ca = s@[at + j as int];
            let cb = pat@[j as int];
            assert(ca as nat <= 0x7f);
            assert(cb as nat <= 0x7f);
            assert(ca as u8 == cb as u8);
            assert((ca as u32) as char == ca);
            assert((cb as u32) as char == cb);
            assert(ca == cb);
        }
        j += 1;
    }
    proof {
        assert(s@.subrange(at as int, at + pat@.len()) =~= pat@);
    }
    true
}

/// The end of the dot-free run starting at `from`.
fn scan_sect(s: &str, from: usize) -> (e: usize)
    requires
        s.is_ascii(),
        from <= s@.len(),
    ensures
        e == sect_end(s@, from as int),
        from <= e <= s@.len(),
{
    let n = s.unicode_len();
    let mut cur = from;
    while cur < n && s.get_ascii(cur) != 46
        invariant
            s.is_ascii(),
            n == s@.len(),
            from <= cur <= n,
            forall|k: int| from <= k < cur ==> #[trigger] s@[k] != '.',
        decreases n - cur,
    {
        proof {
            assert(s@[cur as int] as u8 != 46);
            assert('.' as u8 == 46);
        }
        cur += 1;
    }
    proof {
        broadcast use vstd::utf8::char_u32_cast;
        broadcast use vstd::utf8::char_is_scalar;
        broadcast use vstd::utf8::is_ascii_chars_nat_bound;

        if cur < n {
            let cc = s@[cur as int];
            assert(cc as nat <= 0x7f);
            assert(cc as u8 == 46);
            assert((cc as u32) as char == cc);
            assert(('.' as u32) as char == '.');
            assert(cc == '.');
        }
        lemma_sect_end_is(s@, from as int, cur as int);
    }
    cur
}

/// Verifies a token under a secret at a time, exactly
/// [`spec_verify_token`].
pub fn verify_token(token: &str, secret: &str, now: u64) -> (r: Result<Claims, TokenError>)
    ensures
        (r matches Ok(c) ==> spec_verify_token(token@, secret@, now) == Ok::<
            ClaimsView,
            TokenError,
        >(c@)),
        (r matches Err(e) ==> spec_verify_token(token@, secret@, now) == Err::<
            ClaimsView,
            TokenError,
        >(e)),
{
    if !token.is_ascii() {
        return Err(TokenError::Invalid);
    }
    let n = token.unicode_len();
    let d1 = scan_sect(token, 0);
    if d1 >= n {
        return Err(TokenError::Invalid);
    }
    let header = header_json_vec();
    let hb = b64url_encode(header.as_slice());
    proof {
        lemma_b64url_chars(header_json());
    }
    let hb_ok = if hb.as_str().unicode_len() == d1 {
        ascii_eq_at(token, 0, hb.as_str())
    } else {
        proof {
            assert(token@.subrange(0, d1 as int).len() == d1);
            assert(token@.subrange(0, d1 as int) != spec_b64url(header_json()));
        }
        false
    };
    if !hb_ok {
        return Err(TokenError::Invalid);
    }
    let d2 = scan_sect(token, d1 + 1);
    if d2 >= n {
        return Err(TokenError::Invalid);
    }
    let payload_part = token.substring_ascii(d1 + 1, d2);
    let pb = match b64url_decode(payload_part) {
        Some(v) => v,
        None => {
            return Err(TokenError::Invalid);
        },
    };
    let claims = match parse_payload(pb.as_slice()) {
        Some(c) => c,
        None => {
            return Err(TokenError::Invalid);
        },
    };
    let signing_input = token.substring_ascii(0, d2);
    let expected = match hs256_sign(secret, signing_input) {
        Ok(s) => s,
        Err(_) => {
            return Err(TokenError::Invalid);
        },
    };
    let sig_part = token.substring_ascii(d2 + 1, n);
    let sig_bytes = sig_part.as_bytes_vec();
    let exp_str = expected.as_str();
    let exp_bytes = exp_str.as_bytes_vec();
    let sig_ok = crate::ct::constant_time_eq(sig_bytes.as_slice(), exp_bytes.as_slice());
    proof {
        broadcast use vstd::string::is_ascii_spec_bytes;
        broadcast use vstd::utf8::char_u32_cast;
        broadcast use vstd::utf8::char_is_scalar;
        broadcast use vstd::utf8::is_ascii_chars_nat_bound;

        let sp = token@.subrange(d2 + 1, token@.len() as int);
        let ep = spec_b64url(hmac_sha256_sig(secret@, token@.subrange(0, d2 as int)));
        lemma_b64url_chars(hmac_sha256_sig(secret@, token@.subrange(0, d2 as int)));
        assert(expected@ == ep);
        assert(vstd::utf8::is_ascii_chars(exp_str@));
        vstd::string::is_ascii_spec_bytes(exp_str);
        vstd::string::is_ascii_spec_bytes(sig_part);
        assert(sig_part@ == sp);
        assert(sig_bytes@ =~= Seq::new(sp.len(), |i: int| sp[i] as u8));
        assert(exp_bytes@ =~= Seq::new(ep.len(), |i: int| ep[i] as u8));
        if sig_bytes@ == exp_bytes@ {
            assert(sp.len() == sig_bytes@.len());
            assert(ep.len() == exp_bytes@.len());
            assert(sp.len() == ep.len());
            assert forall|i: int| 0 <= i < sp.len() implies sp[i] == ep[i] by {
                assert(sig_bytes@[i] == exp_bytes@[i]);
                assert(sig_bytes@[i] == sp[i] as u8);
                assert(exp_bytes@[i] == ep[i] as u8);
                assert(sp[i] as u8 == ep[i] as u8);
                assert(sp[i] as nat <= 0x7f);
                assert(ep[i] as nat <= 0x7f);
                assert((sp[i] as u32) as char == sp[i]);
                assert((ep[i] as u32) as char == ep[i]);
            }
            assert(sp =~= ep);
        } else {
            if sp == ep {
                assert(sig_bytes@ =~= exp_bytes@);
                assert(false);
            }
        }
        assert(sig_ok == (sp == ep));
    }
    if !sig_ok {
        return Err(TokenError::Invalid);
    }
    if now > claims.exp {
        return Err(TokenError::Expired);
    }
    proof {
        assert(spec_verify_token(token@, secret@, now) == Ok::<ClaimsView, TokenError>(claims@));
    }
    Ok(claims)
}

/// Verifies a token and renders its failures as the uniform unauthorized
/// error, with distinct messages for the expired and invalid cases.
pub fn decode_jwt(token: &str, secret: &str, now: u64) -> (r: Result<Claims, AppError>)
    ensures
        (r matches Ok(c) ==> spec_verify_token(token@, secret@, now) == Ok::<
            ClaimsView,
            TokenError,
        >(c@)),
        (spec_verify_token(token@, secret@, now) is Ok ==> r is Ok),
        (spec_verify_token(token@, secret@, now) == Err::<ClaimsView, TokenError>(
            TokenError::Expired,
        ) ==> (r matches Err(e) && e matches AppError::Unauthorized(m) && m@
            == "Authentication token expired"@)),
        (spec_verify_token(token@, secret@, now) == Err::<ClaimsView, TokenError>(
            TokenError::Invalid,
        ) ==> (r matches Err(e) && e matches AppError::Unauthorized(m) && m@
            == "Invalid authentication token"@)),
{
    match verify_token(token, secret, now) {
        Ok(c) => Ok(c),
        Err(TokenError::Expired) => Err(AppError::token_expired()),
        Err(TokenError::Invalid) => Err(AppError::token_invalid()),
    }
}

} // verus!
