//! Conversions between unsigned integers and their big-endian byte form
//! (network byte order: most-significant byte first).

use vstd::prelude::*;

verus! {

/// The 16-bit value that two big-endian bytes stand for.
pub open spec fn be_to_u16_spec(b0: u8, b1: u8) -> int {
    b0 * 256 + b1
}

/// The big-endian byte pair of a 16-bit value.
pub open spec fn u16_to_be_spec(val: u16) -> Seq<u8> {
    seq![(val / 256) as u8, (val % 256) as u8]
}

/// The big-endian four bytes of a 32-bit value.
pub open spec fn u32_to_be_spec(val: u32) -> Seq<u8> {
    seq![
        (val / 0x1000000) as u8,
        ((val / 0x10000) % 256) as u8,
        ((val / 0x100) % 256) as u8,
        (val % 256) as u8,
    ]
}

/// Reads the 16-bit word that starts at the front of `be`, most-significant
/// byte first.
pub fn be_to_u16(be: &[u8]) -> (r: u16)
    requires
        be@.len() >= 2,
    ensures
        r == be_to_u16_spec(be@[0], be@[1]),
{
    let b0 = *vstd::slice::slice_index_get(be, 0);
    let b1 = *vstd::slice::slice_index_get(be, 1);
    (b0 as u16) * 256 + (b1 as u16)
}

/// Writes a 16-bit value as two bytes, most-significant byte first.
pub fn u16_to_be(val: u16) -> (r: [u8; 2])
    ensures
        r@ == u16_to_be_spec(val),
{
    let r = [(val / 256) as u8, (val % 256) as u8];
    proof {
        assert(r@ =~= u16_to_be_spec(val));
    }
    r
}

/// Writes a 32-bit value as four bytes, most-significant byte first.
pub fn u32_to_be(val: u32) -> (r: [u8; 4])
    ensures
        r@ == u32_to_be_spec(val),
{
    let r = [
        (val / 0x1000000) as u8,
        ((val / 0x10000) % 256) as u8,
        ((val / 0x100) % 256) as u8,
        (val % 256) as u8,
    ];
    proof {
        assert(r@ =~= u32_to_be_spec(val));
    }
    r
}

} // verus!
