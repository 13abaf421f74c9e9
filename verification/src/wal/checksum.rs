//! The checksum that closes every record.

use vstd::prelude::*;

verus! {

/// The CRC-32 (IEEE) checksum of a byte string, as `crc32fast::hash` computes
/// it. The value depends on the bytes alone.
pub uninterp spec fn crc32_ieee(bytes: Seq<u8>) -> u32;

/// Checksums `data` with `crc32fast::hash`.
///
/// Trusted: the result is the crate's CRC-32 of exactly the bytes handed in.
#[verifier::external_body]
pub(crate) fn crc32(data: &[u8]) -> (sum: u32)
    ensures
        sum == crc32_ieee(data@),
{
    crc32fast::hash(data)
}

} // verus!
