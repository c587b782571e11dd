//! Small text helpers shared by the token codec and the fingerprint
//! encoder.

use vstd::prelude::*;

verus! {

/// Relies on `String::push` of std: appends exactly the given character.
#[verifier::external_body]
pub(crate) fn string_push(s: &mut String, c: char)
    ensures
        final (s)@ == old(s)@.push(c),
{
    s.push(c);
}

/// True when every character of `s` is an ASCII code point.
pub open spec fn ascii_seq(s: Seq<char>) -> bool {
    vstd::utf8::is_ascii_chars(s)
}

} // verus!
