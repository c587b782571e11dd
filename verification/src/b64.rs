//! Base64url (URL-safe alphabet, unpadded) encoding and decoding, the framing
//! used for the three sections of a signed token.
//!
//! [`spec_b64url`] is the mathematical encoder; [`spec_b64url_parse`] the
//! strict decoder, which accepts exactly the encoder's outputs (canonical
//! trailing bits, no padding).  The executable functions are proved to return
//! exactly what the spec functions describe, and [`lemma_b64url_roundtrip`]
//! shows that decoding an encoding gives the original bytes back.

use vstd::prelude::*;

verus! {

use vstd::string::StringSliceAdditionalSpecFns;

/// The alphabet character for a six-bit value.
pub open spec fn sextet_char(v: u8) -> char
    recommends
        v < 64,
{
    if v < 26 {
        ((65 + v) as u8) as char  // 'A'..='Z'
    } else if v < 52 {
        ((97 + (v - 26)) as u8) as char  // 'a'..='z'
    } else if v < 62 {
        ((48 + (v - 52)) as u8) as char  // '0'..='9'
    } else if v == 62 {
        '-'
    } else {
        '_'
    }
}

/// The six-bit value of an alphabet byte; 64 marks a byte outside the
/// alphabet.
pub open spec fn sextet_val_byte(b: u8) -> u8 {
    if 65 <= b && b <= 90 {
        (b - 65) as u8
    } else if 97 <= b && b <= 122 {
        ((b - 97) + 26) as u8
    } else if 48 <= b && b <= 57 {
        ((b - 48) + 52) as u8
    } else if b == 45 {
        62
    } else if b == 95 {
        63
    } else {
        64
    }
}

/// The six-bit value of a character; 64 marks one outside the alphabet.
pub open spec fn sextet_val(c: char) -> u8 {
    if c as nat >= 128 {
        64
    } else {
        sextet_val_byte(c as u8)
    }
}

/// Base64url encoding of a byte string: chunks of three bytes become four
/// characters; a final chunk of one or two bytes becomes two or three
/// characters with zeroed trailing bits; no padding characters.
pub open spec fn spec_b64url(bytes: Seq<u8>) -> Seq<char>
    decreases bytes.len(),
{
    if bytes.len() == 0 {
        Seq::<char>::empty()
    } else if bytes.len() == 1 {
        let b0 = bytes[0];
        seq![sextet_char(b0 >> 2), sextet_char((b0 & 3) << 4)]
    } else if bytes.len() == 2 {
        let b0 = bytes[0];
        let b1 = bytes[1];
        seq![
            sextet_char(b0 >> 2),
            sextet_char(((b0 & 3) << 4) | (b1 >> 4)),
            sextet_char((b1 & 15) << 2),
        ]
    } else {
        let b0 = bytes[0];
        let b1 = bytes[1];
        let b2 = bytes[2];
        seq![
            sextet_char(b0 >> 2),
            sextet_char(((b0 & 3) << 4) | (b1 >> 4)),
            sextet_char(((b1 & 15) << 2) | (b2 >> 6)),
            sextet_char(b2 & 63),
        ] + spec_b64url(bytes.skip(3))
    }
}

/// Strict base64url decoding: `Some` exactly on the encoder's outputs.
pub open spec fn spec_b64url_parse(s: Seq<char>) -> Option<Seq<u8>>
    decreases s.len(),
{
    if s.len() == 0 {
        Some(Seq::<u8>::empty())
    } else if s.len() == 1 {
        None
    } else if s.len() == 2 {
        let v0 = sextet_val(s[0]);
        let v1 = sextet_val(s[1]);
        if v0 < 64 && v1 < 64 && (v1 & 15) == 0 {
            Some(seq![(v0 << 2) | (v1 >> 4)])
        } else {
            None
        }
    } else if s.len() == 3 {
        let v0 = sextet_val(s[0]);
        let v1 = sextet_val(s[1]);
        let v2 = sextet_val(s[2]);
        if v0 < 64 && v1 < 64 && v2 < 64 && (v2 & 3) == 0 {
            Some(seq![(v0 << 2) | (v1 >> 4), ((v1 & 15) << 4) | (v2 >> 2)])
        } else {
            None
        }
    } else {
        let v0 = sextet_val(s[0]);
        let v1 = sextet_val(s[1]);
        let v2 = sextet_val(s[2]);
        let v3 = sextet_val(s[3]);
        if v0 < 64 && v1 < 64 && v2 < 64 && v3 < 64 {
            match spec_b64url_parse(s.skip(4)) {
                Some(rest) => Some(
                    seq![
                        (v0 << 2) | (v1 >> 4),
                        ((v1 & 15) << 4) | (v2 >> 2),
                        ((v2 & 3) << 6) | v3,
                    ] + rest,
                ),
                None => None,
            }
        } else {
            None
        }
    }
}

/// Every character the encoder emits is ASCII and is not a dot, so encoded
/// sections can be joined with dots and split back apart unambiguously.
pub proof fn lemma_b64url_chars(bytes: Seq<u8>)
    ensures
        crate::text::ascii_seq(spec_b64url(bytes)),
        forall|i: int|
            0 <= i < spec_b64url(bytes).len() ==> #[trigger] spec_b64url(bytes)[i] != '.',
    decreases bytes.len(),
{
    let s = spec_b64url(bytes);
    if bytes.len() == 0 {
    } else if bytes.len() == 1 {
        let b0 = bytes[0];
        assert forall|i: int| 0 <= i < s.len() implies s[i] <= '\u{7f}' && s[i] != '.' by {
            lemma_sextet_char_range(b0 >> 2);
            lemma_sextet_char_range((b0 & 3) << 4);
        }
    } else if bytes.len() == 2 {
        let b0 = bytes[0];
        let b1 = bytes[1];
        assert forall|i: int| 0 <= i < s.len() implies s[i] <= '\u{7f}' && s[i] != '.' by {
            lemma_sextet_char_range(b0 >> 2);
            lemma_sextet_char_range(((b0 & 3) << 4) | (b1 >> 4));
            lemma_sextet_char_range((b1 & 15) << 2);
        }
    } else {
        let b0 = bytes[0];
        let b1 = bytes[1];
        let b2 = bytes[2];
        lemma_b64url_chars(bytes.skip(3));
        let rest = spec_b64url(bytes.skip(3));
        assert forall|i: int| 0 <= i < s.len() implies s[i] <= '\u{7f}' && s[i] != '.' by {
            lemma_sextet_char_range(b0 >> 2);
            lemma_sextet_char_range(((b0 & 3) << 4) | (b1 >> 4));
            lemma_sextet_char_range(((b1 & 15) << 2) | (b2 >> 6));
            lemma_sextet_char_range(b2 & 63);
            if i >= 4 {
                assert(s[i] == rest[i - 4]);
            }
        }
    }
}

/// Every alphabet character is an ASCII code point other than the dot.
proof fn lemma_sextet_char_range(v: u8)
    ensures
        sextet_char(v) <= '\u{7f}',
        sextet_char(v) != '.',
{
    if v < 26 {
        assert((((65 + v) as u8) as char) as u32 == 65 + v);
    } else if v < 52 {
        assert((((97 + (v - 26)) as u8) as char) as u32 == 97 + (v - 26));
    } else if v < 62 {
        assert((((48 + (v - 52)) as u8) as char) as u32 == 48 + (v - 52));
    }
}

/// Decoding an encoding yields the original bytes.
pub proof fn lemma_b64url_roundtrip(bytes: Seq<u8>)
    ensures
        spec_b64url_parse(spec_b64url(bytes)) == Some(bytes),
    decreases bytes.len(),
{
    lemma_sextet_roundtrip();
    if bytes.len() == 0 {
        assert(spec_b64url_parse(spec_b64url(bytes)) =~~= Some(bytes));
    } else if bytes.len() == 1 {
        let b0 = bytes[0];
        assert((b0 >> 2) < 64 && ((b0 & 3) << 4) < 64 && (((b0 & 3) << 4) & 15) == 0 && (((b0 >> 2)
            << 2) | (((b0 & 3) << 4) >> 4)) == b0) by (bit_vector);
        assert(spec_b64url_parse(spec_b64url(bytes)) =~~= Some(bytes));
    } else if bytes.len() == 2 {
        let b0 = bytes[0];
        let b1 = bytes[1];
        assert((b0 >> 2) < 64 && (((b0 & 3) << 4) | (b1 >> 4)) < 64 && ((b1 & 15) << 2) < 64 && ((
        (b1 & 15) << 2) & 3) == 0 && (((b0 >> 2) << 2) | ((((b0 & 3) << 4) | (b1 >> 4)) >> 4))
            == b0 && ((((((b0 & 3) << 4) | (b1 >> 4)) & 15) << 4) | (((b1 & 15) << 2) >> 2))
            == b1) by (bit_vector);
        assert(spec_b64url_parse(spec_b64url(bytes)) =~~= Some(bytes));
    } else {
        let b0 = bytes[0];
        let b1 = bytes[1];
        let b2 = bytes[2];
        assert((b0 >> 2) < 64 && (((b0 & 3) << 4) | (b1 >> 4)) < 64 && ((((b1 & 15) << 2) | (b2
            >> 6))) < 64 && (b2 & 63) < 64 && (((b0 >> 2) << 2) | ((((b0 & 3) << 4) | (b1 >> 4))
            >> 4)) == b0 && ((((((b0 & 3) << 4) | (b1 >> 4)) & 15) << 4) | ((((b1 & 15) << 2) | (b2
            >> 6)) >> 2)) == b1 && ((((((b1 & 15) << 2) | (b2 >> 6)) & 3) << 6) | (b2 & 63))
            == b2) by (bit_vector);
        lemma_b64url_roundtrip(bytes.skip(3));
        let s = spec_b64url(bytes);
        assert(s.len() >= 4);
        assert(s.skip(4) =~= spec_b64url(bytes.skip(3)));
        assert(spec_b64url_parse(s) =~~= Some(bytes));
    }
}

/// The value of an alphabet character maps back to the six bits it encodes.
pub proof fn lemma_sextet_roundtrip()
    ensures
        forall|v: u8| v < 64 ==> #[trigger] sextet_val(sextet_char(v)) == v,
{
    assert forall|v: u8| v < 64 implies #[trigger] sextet_val(sextet_char(v)) == v by {
        if v < 26 {
            assert((((65 + v) as u8) as char) as u32 == 65 + v);
            assert((((65 + v) as u8) as char) as u8 == 65 + v);
        } else if v < 52 {
            assert((((97 + (v - 26)) as u8) as char) as u32 == 97 + (v - 26));
            assert((((97 + (v - 26)) as u8) as char) as u8 == 97 + (v - 26));
        } else if v < 62 {
            assert((((48 + (v - 52)) as u8) as char) as u32 == 48 + (v - 52));
            assert((((48 + (v - 52)) as u8) as char) as u8 == 48 + (v - 52));
        } else if v == 62 {
            assert(sextet_val(sextet_char(62)) == 62);
        } else {
            assert(sextet_val(sextet_char(63)) == 63);
        }
    }
}

/// The executable alphabet character for a six-bit value.
fn sextet_char_exec(v: u8) -> (c: char)
    requires
        v < 64,
    ensures
        c == sextet_char(v),
{
    if v < 26 {
        (65 + v) as char
    } else if v < 52 {
        (97 + (v - 26)) as char
    } else if v < 62 {
        (48 + (v - 52)) as char
    } else if v == 62 {
        '-'
    } else {
        '_'
    }
}

/// The executable six-bit value of an alphabet byte; 64 marks a byte outside
/// the alphabet.
fn sextet_val_exec(b: u8) -> (v: u8)
    ensures
        v == sextet_val_byte(b),
{
    if 65 <= b && b <= 90 {
        b - 65
    } else if 97 <= b && b <= 122 {
        (b - 97) + 26
    } else if 48 <= b && b <= 57 {
        (b - 48) + 52
    } else if b == 45 {
        62
    } else if b == 95 {
        63
    } else {
        64
    }
}

/// Encodes a byte string in unpadded base64url.
pub fn b64url_encode(bytes: &[u8]) -> (res: String)
    ensures
        res@ == spec_b64url(bytes@),
{
    let n = bytes.len();
    let mut res = String::new();
    let mut i: usize = 0;
    proof {
        assert(bytes@.skip(0) =~= bytes@);
    }
    while n - i >= 3
        invariant
            n == bytes@.len(),
            i <= n,
            res@ + spec_b64url(bytes@.skip(i as int)) =~= spec_b64url(bytes@),
        decreases n - i,
    {
        let b0 = bytes[i];
        let b1 = bytes[i + 1];
        let b2 = bytes[i + 2];
        proof {
            assert((b0 >> 2) < 64 && (((b0 & 3) << 4) | (b1 >> 4)) < 64 && (((b1 & 15) << 2) | (b2
                >> 6)) < 64 && (b2 & 63) < 64) by (bit_vector);
            assert(bytes@.skip(i as int).skip(3) =~= bytes@.skip(i + 3));
        }
        crate::text::string_push(&mut res, sextet_char_exec(b0 >> 2));
        crate::text::string_push(&mut res, sextet_char_exec(((b0 & 3) << 4) | (b1 >> 4)));
        crate::text::string_push(&mut res, sextet_char_exec(((b1 & 15) << 2) | (b2 >> 6)));
        crate::text::string_push(&mut res, sextet_char_exec(b2 & 63));
        i += 3;
    }
    if n - i == 1 {
        let b0 = bytes[i];
        proof {
            assert((b0 >> 2) < 64 && ((b0 & 3) << 4) < 64) by (bit_vector);
        }
        crate::text::string_push(&mut res, sextet_char_exec(b0 >> 2));
        crate::text::string_push(&mut res, sextet_char_exec((b0 & 3) << 4));
    } else if n - i == 2 {
        let b0 = bytes[i];
        let b1 = bytes[i + 1];
        proof {
            assert((b0 >> 2) < 64 && (((b0 & 3) << 4) | (b1 >> 4)) < 64 && ((b1 & 15) << 2)
                < 64) by (bit_vector);
        }
        crate::text::string_push(&mut res, sextet_char_exec(b0 >> 2));
        crate::text::string_push(&mut res, sextet_char_exec(((b0 & 3) << 4) | (b1 >> 4)));
        crate::text::string_push(&mut res, sextet_char_exec((b1 & 15) << 2));
    }
    proof {
        assert(res@ =~= spec_b64url(bytes@));
    }
    res
}

/// Prepends a decoded prefix to a decoder result.
pub open spec fn opt_prepend(prefix: Seq<u8>, rest: Option<Seq<u8>>) -> Option<Seq<u8>> {
    match rest {
        Some(w) => Some(prefix + w),
        None => None,
    }
}

/// Decodes an unpadded base64url string strictly; `None` on any character
/// outside the alphabet, a leftover length of one, or nonzero trailing bits.
pub fn b64url_decode(s: &str) -> (res: Option<Vec<u8>>)
    requires
        s.is_ascii(),
    ensures
        match res {
            Some(v) => spec_b64url_parse(s@) == Some(v@),
            None => spec_b64url_parse(s@) is None,
        },
{
    broadcast use vstd::string::is_ascii_spec_bytes;
    broadcast use vstd::utf8::is_ascii_chars_nat_bound;

    let n = s.unicode_len();
    assert(n == s@.len());
    let mut acc: Vec<u8> = Vec::new();
    let mut i: usize = 0;
    proof {
        assert(s@.skip(0) =~= s@);
        assert(opt_prepend(acc@, spec_b64url_parse(s@)) =~~= spec_b64url_parse(s@));
    }
    while n - i >= 4
        invariant
            s.is_ascii(),
            n == s@.len(),
            i <= n,
            spec_b64url_parse(s@) =~~= opt_prepend(acc@, spec_b64url_parse(s@.skip(i as int))),
        decreases n - i,
    {
        proof {
            broadcast use vstd::string::is_ascii_spec_bytes;

        }
        let v0 = sextet_val_exec(s.get_ascii(i));
        let v1 = sextet_val_exec(s.get_ascii(i + 1));
        let v2 = sextet_val_exec(s.get_ascii(i + 2));
        let v3 = sextet_val_exec(s.get_ascii(i + 3));
        proof {
            assert(s@[i as int] as nat <= 0x7f);
            assert(s@[i + 1] as nat <= 0x7f);
            assert(s@[i + 2] as nat <= 0x7f);
            assert(s@[i + 3] as nat <= 0x7f);
            assert(v0 == sextet_val(s@[i as int]));
            assert(v1 == sextet_val(s@[i + 1]));
            assert(v2 == sextet_val(s@[i + 2]));
            assert(v3 == sextet_val(s@[i + 3]));
        }
        if !(v0 < 64 && v1 < 64 && v2 < 64 && v3 < 64) {
            proof {
                assert(spec_b64url_parse(s@.skip(i as int)) is None);
            }
            return None;
        }
        proof {
            assert((v0 << 2) | (v1 >> 4) < 256 && ((v1 & 15) << 4) | (v2 >> 2) < 256 && ((v2 & 3)
                << 6) | v3 < 256) by (bit_vector);
            assert(s@.skip(i as int).skip(4) =~= s@.skip(i + 4));
        }
        acc.push((v0 << 2) | (v1 >> 4));
        acc.push(((v1 & 15) << 4) | (v2 >> 2));
        acc.push(((v2 & 3) << 6) | v3);
        i += 4;
        proof {
            assert(spec_b64url_parse(s@) =~~= opt_prepend(
                acc@,
                spec_b64url_parse(s@.skip(i as int)),
            ));
        }
    }
    if n - i == 0 {
        proof {
            assert(spec_b64url_parse(s@.skip(i as int)) == Some(Seq::<u8>::empty()));
            assert(spec_b64url_parse(s@) =~~= Some(acc@));
        }
        Some(acc)
    } else if n - i == 1 {
        proof {
            assert(spec_b64url_parse(s@.skip(i as int)) is None);
        }
        None
    } else if n - i == 2 {
        let v0 = sextet_val_exec(s.get_ascii(i));
        let v1 = sextet_val_exec(s.get_ascii(i + 1));
        proof {
            assert(s@[i as int] as nat <= 0x7f);
            assert(s@[i + 1] as nat <= 0x7f);
        }
        if v0 < 64 && v1 < 64 && (v1 & 15) == 0 {
            acc.push((v0 << 2) | (v1 >> 4));
            proof {
                assert(spec_b64url_parse(s@.skip(i as int)) == Some(
                    seq![(v0 << 2) | (v1 >> 4)],
                ));
                assert(spec_b64url_parse(s@) =~~= Some(acc@));
            }
            Some(acc)
        } else {
            proof {
                assert(spec_b64url_parse(s@.skip(i as int)) is None);
            }
            None
        }
    } else {
        let v0 = sextet_val_exec(s.get_ascii(i));
        let v1 = sextet_val_exec(s.get_ascii(i + 1));
        let v2 = sextet_val_exec(s.get_ascii(i + 2));
        proof {
            assert(s@[i as int] as nat <= 0x7f);
            assert(s@[i + 1] as nat <= 0x7f);
            assert(s@[i + 2] as nat <= 0x7f);
        }
        if v0 < 64 && v1 < 64 && v2 < 64 && (v2 & 3) == 0 {
            acc.push((v0 << 2) | (v1 >> 4));
            acc.push(((v1 & 15) << 4) | (v2 >> 2));
            proof {
                assert(spec_b64url_parse(s@.skip(i as int)) == Some(
                    seq![(v0 << 2) | (v1 >> 4), ((v1 & 15) << 4) | (v2 >> 2)],
                ));
                assert(spec_b64url_parse(s@) =~~= Some(acc@));
            }
            Some(acc)
        } else {
            proof {
                assert(spec_b64url_parse(s@.skip(i as int)) is None);
            }
            None
        }
    }
}

} // verus!
