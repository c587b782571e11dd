//! Constant-time byte comparison.
//!
//! Secrets (the admin enrollment code, signature values) are compared with an
//! accumulated-OR of XORed bytes over equal-length inputs, never with a
//! short-circuiting equality: the running time of the loop does not depend on
//! the position of the first mismatch.  Inputs of differing length are
//! rejected before any byte is read, a short-circuit that depends only on the
//! lengths, not on the contents.

use vstd::prelude::*;

verus! {

/// Compares two byte strings for equality in constant time over their length.
///
/// Returns exactly whether the two inputs hold the same bytes.
pub fn constant_time_eq(a: &[u8], b: &[u8]) -> (r: bool)
    ensures
        r == (a@ == b@),
{
    if a.len() != b.len() {
        assert(a@ != b@);
        return false;
    }
    let n = a.len();
    let mut acc: u8 = 0;
    let mut i: usize = 0;
    while i < n
        invariant
            n == a@.len(),
            a@.len() == b@.len(),
            i <= n,
            (acc == 0) <==> (a@.subrange(0, i as int) =~= b@.subrange(0, i as int)),
        decreases n - i,
    {
        let x = a[i];
        let y = b[i];
        let d = x ^ y;
        let new_acc = acc | d;
        proof {
            assert((x ^ y == 0) <==> (x == y)) by (bit_vector);
            assert((acc | d == 0) <==> (acc == 0 && d == 0)) by (bit_vector);
            if new_acc == 0 {
                assert(a@.subrange(0, i + 1) =~= b@.subrange(0, i + 1));
            } else {
                if a@.subrange(0, i + 1) =~= b@.subrange(0, i + 1) {
                    assert(a@.subrange(0, i + 1)[i as int] == b@.subrange(0, i + 1)[i as int]);
                    assert(a@.subrange(0, i as int) =~= b@.subrange(0, i as int));
                    assert(false);
                }
            }
        }
        acc = new_acc;
        i += 1;
    }
    proof {
        assert(a@.subrange(0, n as int) =~= a@);
        assert(b@.subrange(0, n as int) =~= b@);
        if acc == 0 {
            assert(a@ =~= b@);
        }
    }
    acc == 0
}

} // verus!
