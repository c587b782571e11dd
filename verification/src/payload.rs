//! The claims payload of a signed token: a JSON object with the subject id,
//! the validity window and the role, in a fixed field order.
//!
//! [`spec_payload`] is the canonical serialisation; [`spec_parse_payload`]
//! the strict parser, which accepts exactly the strings the serialiser
//! produces for well-formed claims ([`lemma_payload_roundtrip`]).

use vstd::prelude::*;
use crate::dto::{Claims, ClaimsView, role_char_ok, role_wf};
use crate::numfmt::{
    dec_digits,
    dec_i32,
    is_digit,
    spec_parse_i32,
    spec_parse_u64,
    i32_to_dec,
    u64_to_dec,
};

verus! {

/// The bytes of `{"user_id":`.
pub open spec fn lit_head() -> Seq<u8> {
    seq![123u8, 34, 117, 115, 101, 114, 95, 105, 100, 34, 58]
}

/// The bytes of `,"exp":`.
pub open spec fn lit_exp() -> Seq<u8> {
    seq![44u8, 34, 101, 120, 112, 34, 58]
}

/// The bytes of `,"iat":`.
pub open spec fn lit_iat() -> Seq<u8> {
    seq![44u8, 34, 105, 97, 116, 34, 58]
}

/// The bytes of `,"role":"`.
pub open spec fn lit_role() -> Seq<u8> {
    seq![44u8, 34, 114, 111, 108, 101, 34, 58, 34]
}

/// The bytes of `"}`.
pub open spec fn lit_end() -> Seq<u8> {
    seq![34u8, 125]
}

/// The bytes of an ASCII character sequence.
pub open spec fn ascii_bytes(s: Seq<char>) -> Seq<u8> {
    s.map_values(|c: char| c as u8)
}

/// The characters of an ASCII byte sequence.
pub open spec fn bytes_chars(s: Seq<u8>) -> Seq<char> {
    s.map_values(|b: u8| b as char)
}

/// The canonical payload of a claims value:
/// `{"user_id":U,"exp":E,"iat":I,"role":"R"}`.
pub open spec fn spec_payload(c: ClaimsView) -> Seq<u8> {
    lit_head() + dec_i32(c.user_id) + lit_exp() + dec_digits(c.exp as nat) + lit_iat()
        + dec_digits(c.iat as nat) + lit_role() + ascii_bytes(c.role) + lit_end()
}

/// The first position at or after `i` that does not hold a digit.
pub open spec fn num_end(s: Seq<u8>, i: int) -> int
    decreases s.len() - i when 0 <= i <= s.len()
{
    if i >= s.len() || !is_digit(s[i]) {
        i
    } else {
        num_end(s, i + 1)
    }
}

/// A byte that may appear in a role: printable ASCII except quote and
/// backslash.
pub open spec fn role_byte_ok(b: u8) -> bool {
    32 <= b && b < 127 && b != 34 && b != 92
}

/// The first position at or after `i` that cannot belong to a role.
pub open spec fn role_end(s: Seq<u8>, i: int) -> int
    decreases s.len() - i when 0 <= i <= s.len()
{
    if i >= s.len() || !role_byte_ok(s[i]) {
        i
    } else {
        role_end(s, i + 1)
    }
}

/// When every byte of `[i, j)` scans and the byte at `j` (if any) stops the
/// scan, the scan from `i` ends exactly at `j`.
pub proof fn lemma_num_end_is(s: Seq<u8>, i: int, j: int)
    requires
        0 <= i <= j <= s.len(),
        forall|k: int| i <= k < j ==> is_digit(#[trigger] s[k]),
        j == s.len() || !is_digit(s[j]),
    ensures
        num_end(s, i) == j,
    decreases j - i,
{
    if i < j {
        lemma_num_end_is(s, i + 1, j);
    }
}

pub proof fn lemma_role_end_is(s: Seq<u8>, i: int, j: int)
    requires
        0 <= i <= j <= s.len(),
        forall|k: int| i <= k < j ==> role_byte_ok(#[trigger] s[k]),
        j == s.len() || !role_byte_ok(s[j]),
    ensures
        role_end(s, i) == j,
    decreases j - i,
{
    if i < j {
        lemma_role_end_is(s, i + 1, j);
    }
}

/// The strict parse of a payload: `Some` exactly on canonical serialisations.
pub open spec fn spec_parse_payload(s: Seq<u8>) -> Option<ClaimsView> {
    let n = s.len() as int;
    if n < 11 || s.subrange(0, 11) != lit_head() {
        None
    } else {
        let ds: int = if 11 < n && s[11] == 45 {
            12
        } else {
            11
        };
        {
            let de = num_end(s, ds);
            match spec_parse_i32(s.subrange(11, de)) {
                None => None,
                Some(uid) => {
                    if de + 7 > n || s.subrange(de, de + 7) != lit_exp() {
                        None
                    } else {
                        let ee = num_end(s, de + 7);
                        match spec_parse_u64(s.subrange(de + 7, ee)) {
                            None => None,
                            Some(exp) => {
                                if ee + 7 > n || s.subrange(ee, ee + 7) != lit_iat() {
                                    None
                                } else {
                                    let ie = num_end(s, ee + 7);
                                    match spec_parse_u64(s.subrange(ee + 7, ie)) {
                                        None => None,
                                        Some(iat) => {
                                            if ie + 9 > n || s.subrange(ie, ie + 9) != lit_role() {
                                                None
                                            } else {
                                                let re = role_end(s, ie + 9);
                                                if re + 2 == n && s[re] == 34 && s[re + 1] == 125 {
                                                    Some(
                                                        ClaimsView {
                                                            user_id: uid,
                                                            exp,
                                                            iat,
                                                            role: bytes_chars(
                                                                s.subrange(ie + 9, re),
                                                            ),
                                                        },
                                                    )
                                                } else {
                                                    None
                                                }
                                            }
                                        },
                                    }
                                }
                            },
                        }
                    }
                },
            }
        }
    }
}

/// Appends every byte of `src` to `dst`.
fn push_all(dst: &mut Vec<u8>, src: &[u8])
    ensures
        final (dst)@ == old(dst)@ + src@,
{
    let n = src.len();
    let mut i: usize = 0;
    while i < n
        invariant
            n == src@.len(),
            i <= n,
            dst@ == old(dst)@ + src@.subrange(0, i as int),
        decreases n - i,
    {
        dst.push(src[i]);
        proof {
            assert(src@.subrange(0, i + 1) =~= src@.subrange(0, i as int) + seq![src@[i as int]]);
            assert(dst@ =~= old(dst)@ + src@.subrange(0, i + 1));
        }
        i += 1;
    }
    proof {
        assert(src@.subrange(0, n as int) =~= src@);
        assert(dst@ =~= old(dst)@ + src@);
    }
}

/// Appends the bytes of `{"user_id":` to `dst`.
fn push_lit_head(dst: &mut Vec<u8>)
    ensures
        final (dst)@ == old(dst)@ + lit_head(),
{
    dst.push(123);
    dst.push(34);
    dst.push(117);
    dst.push(115);
    dst.push(101);
    dst.push(114);
    dst.push(95);
    dst.push(105);
    dst.push(100);
    dst.push(34);
    dst.push(58);
    proof {
        assert(dst@ =~= old(dst)@ + lit_head());
    }
}

/// Appends the bytes of `,"exp":` to `dst`.
fn push_lit_exp(dst: &mut Vec<u8>)
    ensures
        final (dst)@ == old(dst)@ + lit_exp(),
{
    dst.push(44);
    dst.push(34);
    dst.push(101);
    dst.push(120);
    dst.push(112);
    dst.push(34);
    dst.push(58);
    proof {
        assert(dst@ =~= old(dst)@ + lit_exp());
    }
}

/// Appends the bytes of `,"iat":` to `dst`.
fn push_lit_iat(dst: &mut Vec<u8>)
    ensures
        final (dst)@ == old(dst)@ + lit_iat(),
{
    dst.push(44);
    dst.push(34);
    dst.push(105);
    dst.push(97);
    dst.push(116);
    dst.push(34);
    dst.push(58);
    proof {
        assert(dst@ =~= old(dst)@ + lit_iat());
    }
}

/// Appends the bytes of `,"role":"` to `dst`.
fn push_lit_role(dst: &mut Vec<u8>)
    ensures
        final (dst)@ == old(dst)@ + lit_role(),
{
    dst.push(44);
    dst.push(34);
    dst.push(114);
    dst.push(111);
    dst.push(108);
    dst.push(101);
    dst.push(34);
    dst.push(58);
    dst.push(34);
    proof {
        assert(dst@ =~= old(dst)@ + lit_role());
    }
}

/// Serialises claims into their canonical payload bytes.
///
/// The role must be a well-formed role string, which the token issuer
/// guarantees for every canonical role name.
pub fn build_payload(c: &Claims) -> (res: Vec<u8>)
    requires
        role_wf(c.role@),
    ensures
        res@ == spec_payload(c@),
{
    let mut out: Vec<u8> = Vec::new();
    push_lit_head(&mut out);
    let uid = i32_to_dec(c.user_id);
    push_all(&mut out, uid.as_slice());
    push_lit_exp(&mut out);
    let exp = u64_to_dec(c.exp);
    push_all(&mut out, exp.as_slice());
    push_lit_iat(&mut out);
    let iat = u64_to_dec(c.iat);
    push_all(&mut out, iat.as_slice());
    push_lit_role(&mut out);
    let r_str = c.role.as_str();
    let role_v = r_str.as_bytes_vec();
    proof {
        broadcast use vstd::utf8::char_u32_cast;
        broadcast use vstd::utf8::char_is_scalar;

        assert(r_str@ == c.role@);
        assert(vstd::utf8::is_ascii_chars(r_str@)) by {
            assert forall|i: int| 0 <= i < r_str@.len() implies '\0' <= #[trigger] r_str@[i]
                <= '\u{7f}' by {
                assert(role_char_ok(c.role@[i]));
            }
        }
        vstd::string::is_ascii_spec_bytes(r_str);
        assert(role_v@ =~= ascii_bytes(c.role@));
    }
    push_all(&mut out, role_v.as_slice());
    out.push(34);
    out.push(125);
    proof {
        assert(out@ =~= spec_payload(c@));
    }
    out
}

/// Parsing the canonical serialisation of well-formed claims gives the
/// claims back: the payload codec loses nothing.
#[verifier::rlimit(60)]
pub proof fn lemma_payload_roundtrip(c: ClaimsView)
    requires
        role_wf(c.role),
    ensures
        spec_parse_payload(spec_payload(c)) == Some(c),
{
    broadcast use vstd::utf8::char_u32_cast;
    broadcast use vstd::utf8::char_is_scalar;

    let du = dec_i32(c.user_id);
    let dx = dec_digits(c.exp as nat);
    let di = dec_digits(c.iat as nat);
    let rb = ascii_bytes(c.role);
    let p = spec_payload(c);
    crate::numfmt::lemma_dec_digits_all(c.exp as nat);
    crate::numfmt::lemma_dec_digits_all(c.iat as nat);
    if c.user_id >= 0 {
        crate::numfmt::lemma_dec_digits_all(c.user_id as nat);
    } else {
        crate::numfmt::lemma_dec_digits_all((-(c.user_id as int)) as nat);
    }
    crate::numfmt::lemma_i32_roundtrip(c.user_id);
    crate::numfmt::lemma_u64_roundtrip(c.exp);
    crate::numfmt::lemma_u64_roundtrip(c.iat);
    let o1 = 11 + du.len() as int;
    let o2 = o1 + 7;
    let o3 = o2 + dx.len() as int;
    let o4 = o3 + 7;
    let o5 = o4 + di.len() as int;
    let o6 = o5 + 9;
    let o7 = o6 + rb.len() as int;
    let n = p.len() as int;
    assert(n == o7 + 2);
    assert(p.subrange(0, 11) =~= lit_head());
    assert(p.subrange(11, o1) =~= du);
    assert(p.subrange(o1, o2) =~= lit_exp());
    assert(p.subrange(o2, o3) =~= dx);
    assert(p.subrange(o3, o4) =~= lit_iat());
    assert(p.subrange(o4, o5) =~= di);
    assert(p.subrange(o5, o6) =~= lit_role());
    assert(p.subrange(o6, o7) =~= rb);
    assert(p[o7] == 34);
    assert(p[o7 + 1] == 125);
    // The subject number: an optional sign, then a digit run ended by the
    // comma of the next literal.
    let ds: int = if 11 < n && p[11] == 45 {
        12
    } else {
        11
    };
    if c.user_id >= 0 {
        assert(p[11] == du[0]);
        assert(is_digit(du[0]));
        assert(ds == 11);
    } else {
        assert(p[11] == 45);
        assert(ds == 12);
        assert forall|k: int| 12 <= k < o1 implies is_digit(#[trigger] p[k]) by {
            assert(p[k] == du[k - 11]);
            assert(du[k - 11] == dec_digits((-(c.user_id as int)) as nat)[k - 12]);
        }
    }
    assert(p[o1] == 44);
    assert(!is_digit(p[o1]));
    assert forall|k: int| ds <= k < o1 implies is_digit(#[trigger] p[k]) by {
        if c.user_id >= 0 {
            assert(p[k] == du[k - 11]);
        } else {
            assert(p[k] == du[k - 11]);
            assert(du[k - 11] == dec_digits((-(c.user_id as int)) as nat)[k - 12]);
        }
    }
    lemma_num_end_is(p, ds, o1);
    assert(p.subrange(11, o1) == du);
    assert(crate::numfmt::spec_parse_i32(p.subrange(11, o1)) == Some(c.user_id));
    // The expiry number.
    assert forall|k: int| o2 <= k < o3 implies is_digit(#[trigger] p[k]) by {
        assert(p[k] == dx[k - o2]);
    }
    assert(p[o3] == 44);
    lemma_num_end_is(p, o2, o3);
    assert(crate::numfmt::spec_parse_u64(p.subrange(o2, o3)) == Some(c.exp));
    // The issue-time number.
    assert forall|k: int| o4 <= k < o5 implies is_digit(#[trigger] p[k]) by {
        assert(p[k] == di[k - o4]);
    }
    assert(p[o5] == 44);
    lemma_num_end_is(p, o4, o5);
    assert(crate::numfmt::spec_parse_u64(p.subrange(o4, o5)) == Some(c.iat));
    // The role run, ended by the closing quote.
    assert forall|k: int| o6 <= k < o7 implies role_byte_ok(#[trigger] p[k]) by {
        assert(p[k] == rb[k - o6]);
        assert(rb[k - o6] == c.role[k - o6] as u8);
        assert(role_char_ok(c.role[k - o6]));
    }
    assert(p[o7] == 34);
    assert(!role_byte_ok(p[o7]));
    lemma_role_end_is(p, o6, o7);
    // Recovering the role characters from their bytes.
    assert(bytes_chars(p.subrange(o6, o7)) =~= c.role) by {
        assert forall|k: int| 0 <= k < rb.len() implies (rb[k] as char) == c.role[k] by {
            let ch = c.role[k];
            assert(role_char_ok(ch));
            assert(rb[k] == ch as u8);
            let c2 = (ch as u8) as char;
            assert(c2 as u32 == ch as u32);
            assert((c2 as u32) as char == c2);
            assert((ch as u32) as char == ch);
        }
    }
    assert(spec_parse_payload(p) == Some(c));
}

/// Whether `s` holds exactly the bytes of `pat` starting at `at`.
fn eq_bytes(s: &[u8], at: usize, pat: &Vec<u8>) -> (r: bool)
    requires
        at + pat@.len() <= s@.len(),
    ensures
        r == (s@.subrange(at as int, at + pat@.len()) == pat@),
{
    proof {
        vstd::slice::axiom_spec_len(s);
    }
    let m = pat.len();
    let mut j: usize = 0;
    while j < m
        invariant
            m == pat@.len(),
            at + m <= s@.len(),
            s@.len() <= usize::MAX,
            j <= m,
            forall|k: int| 0 <= k < j ==> s@[at + k] == #[trigger] pat@[k],
        decreases m - j,
    {
        if s[at + j] != pat[j] {
            proof {
                assert(s@.subrange(at as int, at + pat@.len())[j as int] != pat@[j as int]);
            }
            return false;
        }
        j += 1;
    }
    proof {
        assert(s@.subrange(at as int, at + pat@.len()) =~= pat@);
    }
    true
}

/// The bytes of `{"user_id":` as a vector.
fn lit_head_vec() -> (v: Vec<u8>)
    ensures
        v@ == lit_head(),
{
    let mut v = Vec::new();
    v.push(123);
    v.push(34);
    v.push(117);
    v.push(115);
    v.push(101);
    v.push(114);
    v.push(95);
    v.push(105);
    v.push(100);
    v.push(34);
    v.push(58);
    proof {
        assert(v@ =~= lit_head());
    }
    v
}

/// The bytes of `,"exp":` as a vector.
fn lit_exp_vec() -> (v: Vec<u8>)
    ensures
        v@ == lit_exp(),
{
    let mut v = Vec::new();
    v.push(44);
    v.push(34);
    v.push(101);
    v.push(120);
    v.push(112);
    v.push(34);
    v.push(58);
    proof {
        assert(v@ =~= lit_exp());
    }
    v
}

/// The bytes of `,"iat":` as a vector.
fn lit_iat_vec() -> (v: Vec<u8>)
    ensures
        v@ == lit_iat(),
{
    let mut v = Vec::new();
    v.push(44);
    v.push(34);
    v.push(105);
    v.push(97);
    v.push(116);
    v.push(34);
    v.push(58);
    proof {
        assert(v@ =~= lit_iat());
    }
    v
}

/// The bytes of `,"role":"` as a vector.
fn lit_role_vec() -> (v: Vec<u8>)
    ensures
        v@ == lit_role(),
{
    let mut v = Vec::new();
    v.push(44);
    v.push(34);
    v.push(114);
    v.push(111);
    v.push(108);
    v.push(101);
    v.push(34);
    v.push(58);
    v.push(34);
    proof {
        assert(v@ =~= lit_role());
    }
    v
}

/// The end of the digit run starting at `from`.
fn scan_digits(s: &[u8], from: usize) -> (e: usize)
    requires
        from <= s@.len(),
    ensures
        e == num_end(s@, from as int),
        from <= e <= s@.len(),
{
    let n = s.len();
    let mut cur = from;
    while cur < n && 48 <= s[cur] && s[cur] <= 57
        invariant
            n == s@.len(),
            from <= cur <= n,
            forall|k: int| from <= k < cur ==> is_digit(#[trigger] s@[k]),
        decreases n - cur,
    {
        cur += 1;
    }
    proof {
        lemma_num_end_is(s@, from as int, cur as int);
    }
    cur
}

/// The end of the role run starting at `from`.
fn scan_role(s: &[u8], from: usize) -> (e: usize)
    requires
        from <= s@.len(),
    ensures
        e == role_end(s@, from as int),
        from <= e <= s@.len(),
{
    let n = s.len();
    let mut cur = from;
    while cur < n && 32 <= s[cur] && s[cur] < 127 && s[cur] != 34 && s[cur] != 92
        invariant
            n == s@.len(),
            from <= cur <= n,
            forall|k: int| from <= k < cur ==> role_byte_ok(#[trigger] s@[k]),
        decreases n - cur,
    {
        cur += 1;
    }
    proof {
        lemma_role_end_is(s@, from as int, cur as int);
    }
    cur
}

/// Parses a payload strictly, exactly [`spec_parse_payload`].
pub fn parse_payload(s: &[u8]) -> (res: Option<Claims>)
    ensures
        match res {
            Some(c) => spec_parse_payload(s@) == Some(c@),
            None => spec_parse_payload(s@) is None,
        },
{
    let n = s.len();
    if n < 11 {
        return None;
    }
    let head = lit_head_vec();
    if !eq_bytes(s, 0, &head) {
        proof {
            assert(s@.subrange(0, 11) != lit_head());
        }
        return None;
    }
    let ds: usize = if 11 < n && s[11] == 45 {
        12
    } else {
        11
    };
    let de = scan_digits(s, ds);
    let uid_slice = &s[11..de];
    proof {
        assert(uid_slice@ =~= s@.subrange(11, de as int));
    }
    let uid = match crate::numfmt::parse_i32(uid_slice) {
        Some(u) => u,
        None => {
            return None;
        },
    };
    let exp_lit = lit_exp_vec();
    if n - de < 7 || !eq_bytes(s, de, &exp_lit) {
        return None;
    }
    let ee = scan_digits(s, de + 7);
    let exp_slice = &s[de + 7..ee];
    proof {
        assert(exp_slice@ =~= s@.subrange(de + 7, ee as int));
    }
    let exp = match crate::numfmt::parse_u64(exp_slice) {
        Some(u) => u,
        None => {
            return None;
        },
    };
    let iat_lit = lit_iat_vec();
    if n - ee < 7 || !eq_bytes(s, ee, &iat_lit) {
        return None;
    }
    let ie = scan_digits(s, ee + 7);
    let iat_slice = &s[ee + 7..ie];
    proof {
        assert(iat_slice@ =~= s@.subrange(ee + 7, ie as int));
    }
    let iat = match crate::numfmt::parse_u64(iat_slice) {
        Some(u) => u,
        None => {
            return None;
        },
    };
    let role_lit = lit_role_vec();
    if n - ie < 9 || !eq_bytes(s, ie, &role_lit) {
        return None;
    }
    let re = scan_role(s, ie + 9);
    if !(n - re == 2 && s[re] == 34 && s[re + 1] == 125) {
        return None;
    }
    let mut role = String::new();
    let mut k: usize = ie + 9;
    proof {
        assert(role@ =~= bytes_chars(s@.subrange(ie + 9, ie + 9)));
    }
    while k < re
        invariant
            ie + 9 <= k <= re <= s@.len(),
            role@ == bytes_chars(s@.subrange(ie + 9, k as int)),
        decreases re - k,
    {
        let b = s[k];
        crate::text::string_push(&mut role, b as char);
        proof {
            assert(s@.subrange(ie + 9, k + 1) =~= s@.subrange(ie + 9, k as int) + seq![
                s@[k as int],
            ]);
            assert(bytes_chars(s@.subrange(ie + 9, k + 1)) =~= bytes_chars(
                s@.subrange(ie + 9, k as int),
            ) + seq![s@[k as int] as char]);
            assert(role@ =~= bytes_chars(s@.subrange(ie + 9, k + 1)));
        }
        k += 1;
    }
    let out = Claims { user_id: uid, exp, iat, role };
    proof {
        assert(spec_parse_payload(s@) == Some(out@));
    }
    Some(out)
}

} // verus!
