//! Decimal rendering and parsing of the integer fields carried in a token's
//! claims, over ASCII digit bytes.

use vstd::prelude::*;

verus! {

/// The decimal digit bytes of a natural number, most significant first.
pub open spec fn dec_digits(n: nat) -> Seq<u8>
    decreases n,
{
    if n < 10 {
        seq![(48 + n) as u8]
    } else {
        dec_digits(n / 10) + seq![(48 + (n % 10)) as u8]
    }
}

/// An ASCII decimal digit byte.
pub open spec fn is_digit(b: u8) -> bool {
    48 <= b && b <= 57
}

pub open spec fn all_digits(s: Seq<u8>) -> bool {
    forall|i: int| 0 <= i < s.len() ==> is_digit(#[trigger] s[i])
}

/// The value of a string of digit bytes.
pub open spec fn dec_val(s: Seq<u8>) -> nat
    decreases s.len(),
{
    if s.len() == 0 {
        0
    } else {
        dec_val(s.drop_last()) * 10 + (if s.last() >= 48 {
            (s.last() - 48) as nat
        } else {
            0
        })
    }
}

/// Parsing a digit string as a 64-bit number: `Some` exactly when the string
/// is a nonempty run of digits whose value fits.
pub open spec fn spec_parse_u64(s: Seq<u8>) -> Option<u64> {
    if s.len() > 0 && all_digits(s) && dec_val(s) <= u64::MAX {
        Some(dec_val(s) as u64)
    } else {
        None
    }
}

/// The digits of a number are digits.
pub proof fn lemma_dec_digits_all(n: nat)
    ensures
        all_digits(dec_digits(n)),
        dec_digits(n).len() >= 1,
    decreases n,
{
    if n >= 10 {
        lemma_dec_digits_all(n / 10);
    }
}

/// Rendering then evaluating a number gives the number back.
pub proof fn lemma_dec_digits_val(n: nat)
    ensures
        dec_val(dec_digits(n)) == n,
    decreases n,
{
    if n < 10 {
        let s = dec_digits(n);
        assert(s =~= seq![(48 + n) as u8]);
        assert(s.drop_last() =~= Seq::<u8>::empty());
        assert(dec_val(s.drop_last()) == 0);
        assert(s.last() == (48 + n) as u8);
        assert(s.last() >= 48);
        assert((s.last() - 48) as nat == n);
        assert(dec_val(s) == n);
    } else {
        lemma_dec_digits_val(n / 10);
        let s = dec_digits(n);
        assert(s.drop_last() =~= dec_digits(n / 10));
        assert(n % 10 < 10);
        assert(s.last() == (48 + (n % 10)) as u8);
        assert(s.last() >= 48);
        assert((s.last() - 48) as nat == n % 10);
        assert(dec_val(s) == dec_val(s.drop_last()) * 10 + (n % 10));
        assert(dec_val(s.drop_last()) == n / 10);
        assert(n / 10 * 10 + n % 10 == n) by {
            vstd::arithmetic::div_mod::lemma_fundamental_div_mod(n as int, 10);
        }
        assert(dec_val(s) == n);
    }
}

/// A prefix of a digit string is worth no more than the whole string.
pub proof fn lemma_dec_val_prefix(s: Seq<u8>, i: int)
    requires
        0 <= i <= s.len(),
    ensures
        dec_val(s.subrange(0, i)) <= dec_val(s),
    decreases s.len() - i,
{
    if i == s.len() {
        assert(s.subrange(0, i) =~= s);
    } else {
        lemma_dec_val_prefix(s.drop_last(), i);
        assert(s.drop_last().subrange(0, i) =~= s.subrange(0, i));
        assert(dec_val(s.drop_last()) * 10 >= dec_val(s.drop_last())) by (nonlinear_arith);
    }
}

/// Renders a 64-bit number in decimal.
pub fn u64_to_dec(n: u64) -> (res: Vec<u8>)
    ensures
        res@ == dec_digits(n as nat),
    decreases n,
{
    let d: u8 = 48 + (n % 10) as u8;
    if n < 10 {
        let mut res = Vec::new();
        res.push(d);
        proof {
            assert(res@ =~= dec_digits(n as nat));
        }
        res
    } else {
        proof {
            assert(n / 10 < n) by (nonlinear_arith)
                requires
                    n >= 10,
            ;
        }
        let mut res = u64_to_dec(n / 10);
        res.push(d);
        proof {
            assert(res@ =~= dec_digits(n as nat));
        }
        res
    }
}

/// Parses a digit string as a 64-bit number, exactly [`spec_parse_u64`].
pub fn parse_u64(s: &[u8]) -> (res: Option<u64>)
    ensures
        res == spec_parse_u64(s@),
{
    let n = s.len();
    if n == 0 {
        return None;
    }
    let mut v: u64 = 0;
    let mut i: usize = 0;
    proof {
        assert(s@.subrange(0, 0) =~= Seq::<u8>::empty());
    }
    while i < n
        invariant
            n == s@.len(),
            0 <= i <= n,
            all_digits(s@.subrange(0, i as int)),
            v == dec_val(s@.subrange(0, i as int)),
        decreases n - i,
    {
        let b = s[i];
        if !(48 <= b && b <= 57) {
            return None;
        }
        let d: u64 = (b - 48) as u64;
        if v > (u64::MAX - d) / 10 {
            proof {
                let p = s@.subrange(0, i + 1);
                assert(p.drop_last() =~= s@.subrange(0, i as int));
                assert(p.last() == b);
                assert(v * 10 + d > u64::MAX) by (nonlinear_arith)
                    requires
                        v > (u64::MAX - d) / 10 && d <= 9,
                ;
                assert(dec_val(p) == v * 10 + d);
                lemma_dec_val_prefix(s@, i + 1);
                assert(dec_val(s@) > u64::MAX);
            }
            return None;
        }
        proof {
            assert(v * 10 + d <= u64::MAX) by (nonlinear_arith)
                requires
                    v <= (u64::MAX - d) / 10 && d <= 9,
            ;
            let p = s@.subrange(0, i + 1);
            assert(p.drop_last() =~= s@.subrange(0, i as int));
            assert(p.last() == b);
        }
        v = v * 10 + d;
        i += 1;
    }
    proof {
        assert(s@.subrange(0, n as int) =~= s@);
    }
    Some(v)
}

/// The decimal digit bytes of a signed 32-bit number, with a leading minus
/// sign when it is negative.
pub open spec fn dec_i32(v: i32) -> Seq<u8> {
    if v >= 0 {
        dec_digits(v as nat)
    } else {
        seq![45u8] + dec_digits((-(v as int)) as nat)
    }
}

/// Parsing an optionally-signed digit string as a 32-bit number.
pub open spec fn spec_parse_i32(s: Seq<u8>) -> Option<i32> {
    if s.len() > 0 && s[0] == 45 {
        match spec_parse_u64(s.subrange(1, s.len() as int)) {
            Some(u) => if 0 < u <= 0x8000_0000 {
                Some((-(u as int)) as i32)
            } else {
                None
            },
            None => None,
        }
    } else {
        match spec_parse_u64(s) {
            Some(u) => if u <= 0x7fff_ffff {
                Some(u as i32)
            } else {
                None
            },
            None => None,
        }
    }
}

/// Renders a signed 32-bit number in decimal.
pub fn i32_to_dec(v: i32) -> (res: Vec<u8>)
    ensures
        res@ == dec_i32(v),
{
    if v >= 0 {
        u64_to_dec(v as u64)
    } else {
        let abs: u64 = (-(v as i64)) as u64;
        let mut res = Vec::new();
        res.push(45u8);
        let digits = u64_to_dec(abs);
        let mut j: usize = 0;
        let m = digits.len();
        while j < m
            invariant
                m == digits@.len(),
                0 <= j <= m,
                res@ == seq![45u8] + digits@.subrange(0, j as int),
            decreases m - j,
        {
            res.push(digits[j]);
            proof {
                assert(digits@.subrange(0, j + 1) =~= digits@.subrange(0, j as int) + seq![
                    digits@[j as int],
                ]);
                assert(res@ =~= seq![45u8] + digits@.subrange(0, j + 1));
            }
            j += 1;
        }
        proof {
            assert(digits@.subrange(0, m as int) =~= digits@);
            assert(res@ =~= dec_i32(v));
        }
        res
    }
}

/// Parses an optionally-signed digit string as a 32-bit number, exactly
/// [`spec_parse_i32`].
pub fn parse_i32(s: &[u8]) -> (res: Option<i32>)
    ensures
        res == spec_parse_i32(s@),
{
    let n = s.len();
    if n > 0 && s[0] == 45 {
        let rest = &s[1..n];
        proof {
            assert(rest@ =~= s@.subrange(1, s@.len() as int));
        }
        match parse_u64(rest) {
            Some(u) => {
                if 0 < u && u <= 0x8000_0000 {
                    let v: i32 = (-(u as i64)) as i32;
                    proof {
                        assert(v == (-(u as int)) as i32);
                    }
                    Some(v)
                } else {
                    None
                }
            },
            None => None,
        }
    } else {
        match parse_u64(s) {
            Some(u) => {
                if u <= 0x7fff_ffff {
                    Some(u as i32)
                } else {
                    None
                }
            },
            None => None,
        }
    }
}

/// The decimal rendering of a signed 32-bit number, as characters.
pub open spec fn spec_i32_chars(v: i32) -> Seq<char> {
    dec_i32(v).map_values(|b: u8| b as char)
}

/// Renders a signed 32-bit number as a decimal string.
pub fn i32_to_string(v: i32) -> (s: String)
    ensures
        s@ == spec_i32_chars(v),
{
    let digits = i32_to_dec(v);
    let n = digits.len();
    let mut s = String::new();
    let mut i: usize = 0;
    proof {
        assert(s@ =~= digits@.subrange(0, 0).map_values(|b: u8| b as char));
    }
    while i < n
        invariant
            n == digits@.len(),
            i <= n,
            s@ == digits@.subrange(0, i as int).map_values(|b: u8| b as char),
        decreases n - i,
    {
        let b = digits[i];
        crate::text::string_push(&mut s, b as char);
        proof {
            assert(digits@.subrange(0, i + 1) =~= digits@.subrange(0, i as int) + seq![
                digits@[i as int],
            ]);
            assert(s@ =~= digits@.subrange(0, i + 1).map_values(|b: u8| b as char));
        }
        i += 1;
    }
    proof {
        assert(digits@.subrange(0, n as int) =~= digits@);
    }
    s
}

/// Rendering a 64-bit number then parsing it gives the number back.
pub proof fn lemma_u64_roundtrip(n: u64)
    ensures
        spec_parse_u64(dec_digits(n as nat)) == Some(n),
{
    lemma_dec_digits_all(n as nat);
    lemma_dec_digits_val(n as nat);
}

/// Rendering a signed 32-bit number then parsing it gives the number back.
pub proof fn lemma_i32_roundtrip(v: i32)
    ensures
        spec_parse_i32(dec_i32(v)) == Some(v),
{
    if v >= 0 {
        lemma_dec_digits_all(v as nat);
        lemma_dec_digits_val(v as nat);
        let s = dec_i32(v);
        assert(is_digit(s[0]));
        assert(s[0] != 45);
    } else {
        let a = (-(v as int)) as nat;
        lemma_dec_digits_all(a);
        lemma_dec_digits_val(a);
        let s = dec_i32(v);
        assert(s.subrange(1, s.len() as int) =~= dec_digits(a));
    }
}

} // verus!
