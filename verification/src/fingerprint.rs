//! Token fingerprints for the revocation store.
//!
//! A revoked token is never stored raw: the store is keyed by
//! `blacklisted_jwt:` followed by the lower-case hex of the token's SHA-256
//! digest.  The digest is an outside call named by [`sha256_of`]; the hex
//! rendering and key assembly are verified.

use vstd::prelude::*;

verus! {

/// The SHA-256 digest of a string's bytes; a function of the string alone.
pub uninterp spec fn sha256_of(s: Seq<char>) -> Seq<u8>;

/// Relies on `sha2::Sha256::digest`: a thirty-two byte digest that depends
/// on the input alone.
#[verifier::external_body]
fn sha256_digest(s: &str) -> (r: Vec<u8>)
    ensures
        r@ == sha256_of(s@),
        r@.len() == 32,
{
    let digest = <sha2::Sha256 as sha2::Digest>::digest(s.as_bytes());
    digest.as_slice().to_vec()
}

/// The lower-case hex character of a value below sixteen.
pub open spec fn hex_digit(v: u8) -> char
    recommends
        v < 16,
{
    if v < 10 {
        ((48 + v) as u8) as char  // '0'..='9'
    } else {
        ((97 + (v - 10)) as u8) as char  // 'a'..='f'
    }
}

/// The lower-case hex rendering of a byte string, two characters per byte.
pub open spec fn spec_hex(bytes: Seq<u8>) -> Seq<char>
    decreases bytes.len(),
{
    if bytes.len() == 0 {
        Seq::<char>::empty()
    } else {
        seq![hex_digit(bytes[0] >> 4), hex_digit(bytes[0] & 15)] + spec_hex(bytes.skip(1))
    }
}

/// Renders a byte string in lower-case hex.
pub fn to_hex(bytes: &[u8]) -> (res: String)
    ensures
        res@ == spec_hex(bytes@),
{
    let n = bytes.len();
    let mut res = String::new();
    let mut i: usize = 0;
    proof {
        assert(bytes@.skip(0) =~= bytes@);
    }
    while i < n
        invariant
            n == bytes@.len(),
            i <= n,
            res@ + spec_hex(bytes@.skip(i as int)) =~= spec_hex(bytes@),
        decreases n - i,
    {
        let b = bytes[i];
        let hi = b >> 4;
        let lo = b & 15;
        proof {
            assert((b >> 4) < 16 && (b & 15) < 16) by (bit_vector);
            assert(bytes@.skip(i as int).skip(1) =~= bytes@.skip(i + 1));
        }
        let hc = if hi < 10 {
            (48 + hi) as char
        } else {
            (97 + (hi - 10)) as char
        };
        let lc = if lo < 10 {
            (48 + lo) as char
        } else {
            (97 + (lo - 10)) as char
        };
        crate::text::string_push(&mut res, hc);
        crate::text::string_push(&mut res, lc);
        i += 1;
    }
    proof {
        assert(res@ =~= spec_hex(bytes@));
    }
    res
}

/// The fingerprint of a token: the lower-case hex of its SHA-256 digest.
pub open spec fn spec_fingerprint(token: Seq<char>) -> Seq<char> {
    spec_hex(sha256_of(token))
}

/// Computes a token's fingerprint, exactly [`spec_fingerprint`].
pub fn sha256_hash(token: &str) -> (res: String)
    ensures
        res@ == spec_fingerprint(token@),
{
    let digest = sha256_digest(token);
    to_hex(digest.as_slice())
}

/// The revocation store key of a token: the fixed prefix, then the
/// fingerprint.
pub open spec fn spec_blacklist_key(token: Seq<char>) -> Seq<char> {
    "blacklisted_jwt:"@ + spec_fingerprint(token)
}

/// Computes a token's revocation store key, exactly [`spec_blacklist_key`].
pub fn blacklist_key(token: &str) -> (res: String)
    ensures
        res@ == spec_blacklist_key(token@),
{
    let fp = sha256_hash(token);
    String::from_str("blacklisted_jwt:").concat(fp.as_str())
}

} // verus!
