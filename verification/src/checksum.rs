//! The CRC-32 of the PNG format, computed by the `crc` crate.

use vstd::prelude::*;

verus! {

/// The CRC-32/ISO-HDLC checksum of `bytes`: what the `crc` crate computes
/// for them with its algorithm `CRC_32_ISO_HDLC`.
pub uninterp spec fn crc32_iso_hdlc(bytes: Seq<u8>) -> u32;

/// Calls `crc::Crc::<u32>::new` with `crc::CRC_32_ISO_HDLC`, then
/// `Crc::checksum` on `bytes`. The result depends on the bytes alone and is
/// given the name `crc32_iso_hdlc`: nothing else is claimed of it.
#[verifier::external_body]
pub(crate) fn checksum(bytes: &[u8]) -> (sum: u32)
    ensures
        sum == crc32_iso_hdlc(bytes@),
{
    crc::Crc::<u32>::new(&crc::CRC_32_ISO_HDLC).checksum(bytes)
}

} // verus!
