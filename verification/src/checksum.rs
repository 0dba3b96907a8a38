//! The integrity code used by the chunk trailer: CRC-32 over the tag and
//! payload bytes, in the bit-reflected ISO-HDLC variant.

use vstd::prelude::*;

verus! {

/// The CRC-32 (ISO-HDLC variant) of a byte sequence.
///
/// The checksum is left uninterpreted here: contracts state which bytes feed
/// it and how its result is compared, never the algorithm's internals.
pub uninterp spec fn crc32_of(bytes: Seq<u8>) -> u32;

/// Relies on `crc::Crc::<u32>::checksum` with the `CRC_32_ISO_HDLC` algorithm:
/// a pure function of the input bytes and the fixed algorithm parameters.
#[verifier::external_body]
pub(crate) fn crc32(bytes: &[u8]) -> (r: u32)
    ensures
        r == crc32_of(bytes@),
{
    crc::Crc::<u32>::new(&crc::CRC_32_ISO_HDLC).checksum(bytes)
}

} // verus!
