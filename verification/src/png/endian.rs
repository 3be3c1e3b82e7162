//! Big-endian framing of 32-bit integers, as the length and CRC fields use it.
use vstd::prelude::*;

verus! {

/// The four bytes of `x`, most significant first.
#[verifier::opaque]
pub open spec fn be32(x: u32) -> Seq<u8> {
    seq![
        (x / 0x100_0000) as u8,
        ((x / 0x1_0000) % 0x100) as u8,
        ((x / 0x100) % 0x100) as u8,
        (x % 0x100) as u8,
    ]
}

/// The integer whose big-endian bytes are the first four of `bytes`.
#[verifier::opaque]
pub open spec fn be32_value(bytes: Seq<u8>) -> u32
    recommends
        bytes.len() >= 4,
{
    (bytes[0] * 0x100_0000 + bytes[1] * 0x1_0000 + bytes[2] * 0x100 + bytes[3]) as u32
}

/// Reading back what [`be32`] wrote gives the integer again.
pub proof fn lemma_be32_value_of_be32(x: u32)
    ensures
        be32(x).len() == 4,
        be32_value(be32(x)) == x,
{
    reveal(be32);
    reveal(be32_value);
}

/// Only the first four bytes are read.
pub proof fn lemma_be32_value_of_prefix(bytes: Seq<u8>, n: int)
    requires
        4 <= n <= bytes.len(),
    ensures
        be32_value(bytes.subrange(0, n)) == be32_value(bytes),
{
    reveal(be32_value);
}

/// Writing what [`be32_value`] read gives the four bytes again.
pub proof fn lemma_be32_of_be32_value(bytes: Seq<u8>)
    requires
        bytes.len() == 4,
    ensures
        be32(be32_value(bytes)) == bytes,
{
    reveal(be32);
    reveal(be32_value);
    let (a, b, c, d) = (bytes[0], bytes[1], bytes[2], bytes[3]);
    let x = be32_value(bytes);
    assert(x == a * 0x100_0000 + b * 0x1_0000 + c * 0x100 + d);
    assert(x / 0x100_0000 == a && (x / 0x1_0000) % 0x100 == b && (x / 0x100) % 0x100 == c && x
        % 0x100 == d) by (bit_vector)
        requires
            x == a * 0x100_0000 + b * 0x1_0000 + c * 0x100 + d,
    ;
    assert(be32(x) =~= bytes);
}

/// Encodes `x` big-endian.
pub fn u32_to_be_bytes(x: u32) -> (r: [u8; 4])
    ensures
        r@ == be32(x),
{
    let r: [u8; 4] = [
        (x / 0x100_0000) as u8,
        ((x / 0x1_0000) % 0x100) as u8,
        ((x / 0x100) % 0x100) as u8,
        (x % 0x100) as u8,
    ];
    proof {
        reveal(be32);
        assert(r@ =~= be32(x));
    }
    r
}

/// Decodes a big-endian integer.
pub fn u32_from_be_bytes(bytes: [u8; 4]) -> (r: u32)
    ensures
        r == be32_value(bytes@),
{
    proof {
        reveal(be32_value);
    }
    (bytes[0] as u32) * 0x100_0000 + (bytes[1] as u32) * 0x1_0000 + (bytes[2] as u32) * 0x100 + (
    bytes[3] as u32)
}

/// Copies a slice of exactly four bytes into an array.
pub fn u8_4_from_slice(bytes: &[u8]) -> (r: [u8; 4])
    requires
        bytes@.len() == 4,
    ensures
        r@ == bytes@,
{
    let r: [u8; 4] = [bytes[0], bytes[1], bytes[2], bytes[3]];
    assert(r@ =~= bytes@);
    r
}

} // verus!
