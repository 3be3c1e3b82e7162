//! The checksum that closes every chunk.
use crc::{Crc, CRC_32_ISO_HDLC};
use vstd::prelude::*;

verus! {

/// The CRC-32/ISO-HDLC checksum of `bytes`: the 32-bit cyclic redundancy
/// check with polynomial `0x04C11DB7`, reflected input and output, and
/// `0xFFFFFFFF` as initial value and final XOR. It is the value that the
/// `crc` crate computes; this crate does not define it a second time.
pub uninterp spec fn crc32_iso_hdlc(bytes: Seq<u8>) -> u32;

/// Computes the checksum with `crc::Crc::<u32>::checksum`, on a `Crc` made by
/// `Crc::<u32>::new(&CRC_32_ISO_HDLC)`. Trusted: the result is the checksum
/// of exactly the bytes given, and depends on nothing else.
#[verifier::external_body]
pub(crate) fn checksum(bytes: &[u8]) -> (r: u32)
    ensures
        r == crc32_iso_hdlc(bytes@),
{
    Crc::<u32>::new(&CRC_32_ISO_HDLC).checksum(bytes)
}

} // verus!
