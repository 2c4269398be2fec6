use vstd::prelude::*;

verus! {

/// The 32-bit CRC-32 (IEEE) checksum of a byte sequence, as the checksum
/// primitive computes it.  The value depends on the bytes alone.
pub uninterp spec fn crc32_of(bytes: Seq<u8>) -> u32;

/// Relies on crc32fast::hash: the CRC-32 (IEEE) checksum of the bytes, a
/// pure function of the byte sequence alone.
#[verifier::external_body]
pub(crate) fn crc32(bytes: &Vec<u8>) -> (r: u32)
    ensures
        r == crc32_of(bytes@),
{
    crc32fast::hash(bytes.as_slice())
}

} // verus!
