//! Big-endian 32 bit integers, as the lengths and checksums of chunks are
//! written.

use vstd::prelude::*;

verus! {

/// The four bytes of `x`, most significant byte first.
pub open spec fn spec_u32_to_be(x: u32) -> Seq<u8> {
    seq![
        (x / 0x100_0000) as u8,
        (x / 0x1_0000 % 0x100) as u8,
        (x / 0x100 % 0x100) as u8,
        (x % 0x100) as u8,
    ]
}

/// The integer that the first four bytes of `bytes` write, most significant
/// byte first.
pub open spec fn spec_u32_from_be(bytes: Seq<u8>) -> u32
    recommends
        bytes.len() >= 4,
{
    (bytes[0] * 0x100_0000 + bytes[1] * 0x1_0000 + bytes[2] * 0x100 + bytes[3]) as u32
}

/// Reading the four bytes of an integer gives the integer back.
pub proof fn lemma_u32_be_round_trip(x: u32)
    ensures
        spec_u32_to_be(x).len() == 4,
        spec_u32_from_be(spec_u32_to_be(x)) == x,
{
}

/// Writing the integer that four bytes give writes these four bytes.
pub proof fn lemma_be_u32_round_trip(bytes: Seq<u8>)
    requires
        bytes.len() == 4,
    ensures
        spec_u32_to_be(spec_u32_from_be(bytes)) == bytes,
{
    let b0 = bytes[0] as u32;
    let b1 = bytes[1] as u32;
    let b2 = bytes[2] as u32;
    let b3 = bytes[3] as u32;
    let x = spec_u32_from_be(bytes);
    assert(x / 0x100_0000 == b0 && x / 0x1_0000 % 0x100 == b1 && x / 0x100 % 0x100 == b2 && x
        % 0x100 == b3) by (bit_vector)
        requires
            b0 < 0x100,
            b1 < 0x100,
            b2 < 0x100,
            b3 < 0x100,
            x == b0 * 0x100_0000 + b1 * 0x1_0000 + b2 * 0x100 + b3,
    ;
    assert(spec_u32_to_be(x) =~= bytes);
}

/// The four bytes of `x`, most significant byte first.
pub fn u32_to_be_bytes(x: u32) -> (bytes: [u8; 4])
    ensures
        bytes@ == spec_u32_to_be(x),
{
    assert(x >> 24 == x / 0x100_0000) by (bit_vector);
    assert((x >> 16) & 0xff == x / 0x1_0000 % 0x100) by (bit_vector);
    assert((x >> 8) & 0xff == x / 0x100 % 0x100) by (bit_vector);
    assert(x & 0xff == x % 0x100) by (bit_vector);
    let bytes = [
        (x >> 24) as u8,
        ((x >> 16) & 0xff) as u8,
        ((x >> 8) & 0xff) as u8,
        (x & 0xff) as u8,
    ];
    assert(bytes@ =~= spec_u32_to_be(x));
    bytes
}

/// The integer that `bytes` write, most significant byte first.
pub fn u32_from_be_bytes(bytes: [u8; 4]) -> (x: u32)
    ensures
        x == spec_u32_from_be(bytes@),
{
    let b0 = bytes[0] as u32;
    let b1 = bytes[1] as u32;
    let b2 = bytes[2] as u32;
    let b3 = bytes[3] as u32;
    assert((b0 << 24) | (b1 << 16) | (b2 << 8) | b3 == b0 * 0x100_0000 + b1 * 0x1_0000 + b2 * 0x100
        + b3) by (bit_vector)
        requires
            b0 < 0x100,
            b1 < 0x100,
            b2 < 0x100,
            b3 < 0x100,
    ;
    (b0 << 24) | (b1 << 16) | (b2 << 8) | b3
}

} // verus!
