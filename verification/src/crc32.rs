//! The chunk checksum: CRC-32 with the ISO-HDLC parameters.

use vstd::prelude::*;

verus! {

/// The CRC-32/ISO-HDLC checksum of a byte sequence. The algorithm is left
/// unstated here; the checksum is a pure function of the bytes, computed by
/// the `crc` crate.
pub uninterp spec fn crc32_of(data: Seq<u8>) -> u32;

/// Relies on `crc::Crc::<u32>::checksum` with the `CRC_32_ISO_HDLC`
/// algorithm constant: the checksum depends on the input bytes alone.
#[verifier::external_body]
pub(crate) fn crc32(data: &Vec<u8>) -> (r: u32)
    ensures
        r == crc32_of(data@),
{
    let algorithm = crc::Crc::<u32>::new(&crc::CRC_32_ISO_HDLC);
    algorithm.checksum(data.as_slice())
}

} // verus!
