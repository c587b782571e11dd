//! Fresh account identifiers, drawn from a random UUID.

use vstd::prelude::*;

verus! {

/// Relies on `uuid::Uuid::new_v4`: a fresh random UUID of sixteen bytes.
/// Nothing is promised of the bytes' values.
#[verifier::external_body]
fn fresh_uuid_bytes() -> (r: Vec<u8>)
    ensures
        r@.len() == 16,
{
    uuid::Uuid::new_v4().as_bytes().to_vec()
}

/// The signed 32-bit value read from four little-endian bytes.
pub open spec fn spec_le_i32(b: Seq<u8>) -> i32
    recommends
        b.len() >= 4,
{
    ((b[0] as u32) | ((b[1] as u32) << 8) | ((b[2] as u32) << 16) | ((b[3] as u32) << 24)) as i32
}

/// Reads a signed 32-bit value from the first four bytes, little endian.
pub fn le_i32(b: &[u8]) -> (r: i32)
    requires
        b@.len() >= 4,
    ensures
        r == spec_le_i32(b@),
{
    let b0 = b[0] as u32;
    let b1 = b[1] as u32;
    let b2 = b[2] as u32;
    let b3 = b[3] as u32;
    proof {
        assert((b1 << 8) <= 0xff00 && (b2 << 16) <= 0xff0000 && (b3 << 24) <= 0xff000000u32)
            by (bit_vector)
            requires
                b1 <= 0xff && b2 <= 0xff && b3 <= 0xff,
        ;
    }
    (b0 | (b1 << 8) | (b2 << 16) | (b3 << 24)) as i32
}

/// A fresh account identifier: the first four bytes of a random UUID, read
/// as a little-endian signed 32-bit value.
pub fn convert_i32() -> i32 {
    let bytes = fresh_uuid_bytes();
    le_i32(bytes.as_slice())
}

} // verus!
