//! The CRC-32/ISO-HDLC checksum (the variant used by zlib and gzip), named at
//! the specification level and computed by the `crc` crate.

use vstd::prelude::*;

verus! {

/// The CRC-32/ISO-HDLC checksum of a byte sequence. The algorithm itself is
/// not restated here; contracts speak of its result through this name alone.
pub uninterp spec fn crc32_of(bytes: Seq<u8>) -> u32;

/// Relies on `crc::Crc::<u32>::new(&CRC_32_ISO_HDLC).checksum`: the
/// CRC-32/ISO-HDLC checksum of the bytes, a pure function of the byte
/// sequence alone.
#[verifier::external_body]
pub(crate) fn crc32_checksum(bytes: &[u8]) -> (r: u32)
    ensures
        r == crc32_of(bytes@),
{
    crc::Crc::<u32>::new(&crc::CRC_32_ISO_HDLC).checksum(bytes)
}

} // verus!
