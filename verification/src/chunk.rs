//! The chunk record itself: construction from parts, byte serialization, and
//! CRC-validated parsing.
//!
//! Wire layout, all integers big-endian: 4-byte declared payload length,
//! 4-byte type tag, payload, 4-byte CRC-32 trailer over tag and payload.
//! The declared length is read from the wire as-is on parse; it is not
//! cross-checked against the actual payload slice, whose extent is the total
//! buffer size minus the fixed 12-byte overhead.

use crate::be32::{
    spec_u32_from_be_bytes, spec_u32_to_be_bytes, u32_from_be_bytes, u32_to_be_bytes,
};
use crate::checksum::{crc32, crc32_of};
use crate::chunk_type::ChunkType;
use crate::decimal::{spec_dec, u32_to_dec};
use crate::text::string_from_utf8;
use vstd::prelude::*;
use vstd::string::StringExecFns;
use vstd::slice::{slice_index_get, slice_subrange, slice_to_vec};
use vstd::utf8::{decode_utf8, valid_utf8};

verus! {

/// Why a byte buffer failed to parse as a chunk.
#[derive(Debug, Clone, Copy, PartialEq, Eq, Structural)]
pub enum DecodeError {
    /// The buffer is shorter than the fixed 12-byte overhead; no field can
    /// even be extracted.
    StructuralError,
    /// The checksum recomputed over tag and payload disagrees with the
    /// trailer checksum: the buffer is corrupt or tampered with.
    IntegrityError,
}

/// The payload bytes are not a valid text encoding; the chunk itself remains
/// well-formed.
#[derive(Debug, Clone, Copy, PartialEq, Eq, Structural)]
pub struct TextDecodeError;

/// A length-prefixed, type-tagged, CRC-trailed binary record.
#[derive(Debug)]
pub struct Chunk {
    /// Integrity code over tag bytes followed by payload bytes.
    pub chunk_crc: u32,
    /// The 4-byte type tag.
    pub chunk_type: ChunkType,
    /// The payload.
    pub chunk_data: Vec<u8>,
    /// The declared payload length: the payload's byte count on the encode
    /// path, the wire's length field on the decode path.
    pub length: u32,
}

/// The declared length field of a serialized chunk.
pub open spec fn spec_declared_len(b: Seq<u8>) -> u32
    recommends
        b.len() >= 12,
{
    spec_u32_from_be_bytes(b.subrange(0, 4))
}

/// The type tag bytes of a serialized chunk.
pub open spec fn spec_tag(b: Seq<u8>) -> Seq<u8>
    recommends
        b.len() >= 12,
{
    b.subrange(4, 8)
}

/// The payload of a serialized chunk: everything between the tag and the
/// 4-byte trailer.
pub open spec fn spec_payload(b: Seq<u8>) -> Seq<u8>
    recommends
        b.len() >= 12,
{
    b.subrange(8, b.len() - 4)
}

/// The trailer checksum field of a serialized chunk.
pub open spec fn spec_trailer(b: Seq<u8>) -> u32
    recommends
        b.len() >= 12,
{
    spec_u32_from_be_bytes(b.subrange(b.len() - 4, b.len() as int))
}

/// Whether a byte buffer parses as a chunk: long enough to hold the fixed
/// fields, and the checksum recomputed over tag and payload matches the
/// trailer.
pub open spec fn parse_ok(b: Seq<u8>) -> bool {
    &&& b.len() >= 12
    &&& crc32_of(spec_tag(b) + spec_payload(b)) == spec_trailer(b)
}

impl Chunk {
    /// The bytes the integrity code is computed over: tag, then payload.
    pub open spec fn crc_input(self) -> Seq<u8> {
        self.chunk_type.0@ + self.chunk_data@
    }

    /// Internal consistency: the stored checksum is exactly the CRC-32 of the
    /// tag and payload bytes. Construction establishes it and parsing
    /// re-verifies it; every chunk handed to a caller satisfies it.
    pub open spec fn wf(self) -> bool {
        self.chunk_crc == crc32_of(self.crc_input())
    }

    /// The chunk's wire form: declared length, tag, payload, checksum.
    pub open spec fn spec_serialized(self) -> Seq<u8> {
        spec_u32_to_be_bytes(self.length) + self.chunk_type.0@ + self.chunk_data@
            + spec_u32_to_be_bytes(self.chunk_crc)
    }

    /// Builds a chunk from a type tag and payload. Never fails: the checksum
    /// is computed here, over the tag bytes followed by the payload bytes,
    /// and the declared length is the payload's byte count.
    pub fn new(chunk_type: ChunkType, data: Vec<u8>) -> (c: Chunk)
        requires
            data@.len() <= u32::MAX,
        ensures
            c.chunk_type == chunk_type,
            c.chunk_data@ == data@,
            c.length == data@.len(),
            c.chunk_crc == crc32_of(chunk_type.0@ + data@),
            c.wf(),
    {
        let mut chunk_type_data: Vec<u8> = Vec::new();
        let tag = chunk_type.bytes();
        chunk_type_data.push(tag[0]);
        chunk_type_data.push(tag[1]);
        chunk_type_data.push(tag[2]);
        chunk_type_data.push(tag[3]);
        chunk_type_data.extend_from_slice(data.as_slice());
        proof {
            assert(chunk_type_data@ =~= chunk_type.0@ + data@);
        }
        let crc = crc32(chunk_type_data.as_slice());
        let length = data.len() as u32;
        Chunk { chunk_crc: crc, chunk_type, chunk_data: data, length }
    }

    /// The declared payload length.
    pub fn length(&self) -> (r: u32)
        ensures
            r == self.length,
    {
        self.length
    }

    /// The stored integrity code.
    pub fn crc(&self) -> (r: u32)
        ensures
            r == self.chunk_crc,
    {
        self.chunk_crc
    }

    /// An independent copy of the type tag.
    pub fn chunk_type(&self) -> (r: ChunkType)
        ensures
            r == self.chunk_type,
    {
        self.chunk_type
    }

    /// The payload interpreted as UTF-8 text; fails exactly when the payload
    /// is not valid UTF-8, leaving the chunk itself untouched and valid.
    pub fn data_as_string(&self) -> (r: Result<String, TextDecodeError>)
        ensures
            r is Ok <==> valid_utf8(self.chunk_data@),
            r matches Ok(s) ==> s@ == decode_utf8(self.chunk_data@),
    {
        match string_from_utf8(&self.chunk_data) {
            Some(s) => Ok(s),
            None => Err(TextDecodeError),
        }
    }

    /// The chunk's wire form: declared length, tag, payload, checksum, with
    /// both integers big-endian. The exact inverse of [`Chunk::try_from`].
    pub fn as_bytes(&self) -> (r: Vec<u8>)
        ensures
            r@ == self.spec_serialized(),
            r@.len() == 12 + self.chunk_data@.len(),
    {
        let mut out = u32_to_be_bytes(self.length);
        let tag = self.chunk_type.bytes();
        out.push(tag[0]);
        out.push(tag[1]);
        out.push(tag[2]);
        out.push(tag[3]);
        out.extend_from_slice(self.chunk_data.as_slice());
        let crc_bytes = u32_to_be_bytes(self.chunk_crc);
        out.extend_from_slice(crc_bytes.as_slice());
        proof {
            assert(out@ =~= self.spec_serialized());
        }
        out
    }

    /// Parses a chunk from an untrusted byte buffer.
    ///
    /// A buffer shorter than the 12 fixed bytes fails structurally before any
    /// field is read. Otherwise the checksum is recomputed over the tag and
    /// payload bytes and compared to the trailer; on mismatch no chunk is
    /// produced. On success the chunk carries the wire's declared length
    /// field, which this codec does not cross-check against the payload's
    /// actual byte count.
    pub fn try_from(value: &Vec<u8>) -> (r: Result<Chunk, DecodeError>)
        ensures
            match r {
                Ok(c) => {
                    &&& parse_ok(value@)
                    &&& c.length == spec_declared_len(value@)
                    &&& c.chunk_type.0@ == spec_tag(value@)
                    &&& c.chunk_data@ == spec_payload(value@)
                    &&& c.chunk_crc == spec_trailer(value@)
                    &&& c.wf()
                },
                Err(DecodeError::StructuralError) => value@.len() < 12,
                Err(DecodeError::IntegrityError) => value@.len() >= 12 && !parse_ok(value@),
            },
    {
        let n = value.len();
        if n < 12 {
            return Err(DecodeError::StructuralError);
        }
        let length = u32_from_be_bytes(slice_subrange(value.as_slice(), 0, 4));
        let tag_bytes = slice_subrange(value.as_slice(), 4, 8);
        let chunk_type = ChunkType(
            [
                *slice_index_get(tag_bytes, 0),
                *slice_index_get(tag_bytes, 1),
                *slice_index_get(tag_bytes, 2),
                *slice_index_get(tag_bytes, 3),
            ],
        );
        let message = slice_to_vec(slice_subrange(value.as_slice(), 8, n - 4));
        let trailer = u32_from_be_bytes(slice_subrange(value.as_slice(), n - 4, n));

        let mut chunk_type_data: Vec<u8> = Vec::new();
        chunk_type_data.extend_from_slice(tag_bytes);
        chunk_type_data.extend_from_slice(message.as_slice());
        proof {
            assert(chunk_type.0@ =~= spec_tag(value@));
            assert(chunk_type_data@ =~= spec_tag(value@) + spec_payload(value@));
        }
        let crc = crc32(chunk_type_data.as_slice());

        if crc != trailer {
            return Err(DecodeError::IntegrityError);
        }
        Ok(Chunk { chunk_crc: crc, chunk_type, chunk_data: message, length })
    }

    /// The chunk's one-line summary, given the textual renderings of its tag
    /// and payload.
    pub open spec fn spec_rendered(self, tag_text: Seq<char>, data_text: Seq<char>) -> Seq<char> {
        "CRC: "@ + spec_dec(self.chunk_crc as int) + ", Chunk type: "@ + tag_text
            + ", Chunk data: "@ + data_text + ", Length: "@ + spec_dec(self.length as int)
    }

    /// A single-line human-readable summary: checksum, type tag, payload
    /// text, and declared length. Fails exactly when the tag or the payload
    /// bytes are not valid UTF-8.
    pub fn render(&self) -> (r: Result<String, TextDecodeError>)
        ensures
            r is Ok <==> valid_utf8(self.chunk_type.0@) && valid_utf8(self.chunk_data@),
            r matches Ok(s) ==> s@ == self.spec_rendered(
                decode_utf8(self.chunk_type.0@),
                decode_utf8(self.chunk_data@),
            ),
    {
        let tag_text = match self.chunk_type.to_text() {
            Some(t) => t,
            None => {
                return Err(TextDecodeError);
            },
        };
        let data_text = match self.data_as_string() {
            Ok(t) => t,
            Err(e) => {
                return Err(e);
            },
        };
        let mut out = "CRC: ".to_owned();
        let crc_text = u32_to_dec(self.chunk_crc);
        out.append(crc_text.as_str());
        out.append(", Chunk type: ");
        out.append(tag_text.as_str());
        out.append(", Chunk data: ");
        out.append(data_text.as_str());
        out.append(", Length: ");
        let length_text = u32_to_dec(self.length);
        out.append(length_text.as_str());
        proof {
            assert(out@ =~= self.spec_rendered(
                decode_utf8(self.chunk_type.0@),
                decode_utf8(self.chunk_data@),
            ));
        }
        Ok(out)
    }
}

/// Round trip: any internally consistent chunk's wire form parses back
/// successfully to a chunk with the identical declared length, type tag,
/// payload, and checksum. In particular this holds of every chunk built by
/// [`Chunk::new`] and of every chunk returned by [`Chunk::try_from`].
pub proof fn lemma_round_trip(c: Chunk)
    requires
        c.wf(),
    ensures
        parse_ok(c.spec_serialized()),
        spec_declared_len(c.spec_serialized()) == c.length,
        spec_tag(c.spec_serialized()) == c.chunk_type.0@,
        spec_payload(c.spec_serialized()) == c.chunk_data@,
        spec_trailer(c.spec_serialized()) == c.chunk_crc,
{
    crate::be32::lemma_u32_to_from_be_bytes();
    let b = c.spec_serialized();
    assert(b.len() == 12 + c.chunk_data@.len());
    assert(b.subrange(0, 4) =~= spec_u32_to_be_bytes(c.length));
    assert(spec_tag(b) =~= c.chunk_type.0@);
    assert(spec_payload(b) =~= c.chunk_data@);
    assert(b.subrange(b.len() - 4, b.len() as int) =~= spec_u32_to_be_bytes(c.chunk_crc));
    assert(spec_tag(b) + spec_payload(b) =~= c.crc_input());
}

/// Serialization is the exact inverse of parsing in the other direction as
/// well: a chunk whose fields are exactly a buffer's parsed fields — as the
/// contract of [`Chunk::try_from`] guarantees of every chunk it returns —
/// serializes back to that buffer byte for byte.
pub proof fn lemma_serialize_reconstructs_buffer(c: Chunk, b: Seq<u8>)
    requires
        b.len() >= 12,
        c.length == spec_declared_len(b),
        c.chunk_type.0@ == spec_tag(b),
        c.chunk_data@ == spec_payload(b),
        c.chunk_crc == spec_trailer(b),
    ensures
        c.spec_serialized() == b,
{
    crate::be32::lemma_u32_to_from_be_bytes();
    assert(spec_u32_to_be_bytes(c.length) =~= b.subrange(0, 4));
    assert(spec_u32_to_be_bytes(c.chunk_crc) =~= b.subrange(b.len() - 4, b.len() as int));
    assert(c.spec_serialized() =~= b);
}

/// Tamper detection: corrupting any single byte of the trailer checksum
/// field of a valid serialized chunk, while leaving every other byte intact,
/// makes parsing fail; with the buffer still at least 12 bytes long, the
/// failure is an integrity error by the contract of [`Chunk::try_from`].
pub proof fn lemma_tampered_trailer_rejected(c: Chunk, b: Seq<u8>, i: int)
    requires
        c.wf(),
        b.len() == c.spec_serialized().len(),
        c.spec_serialized().len() - 4 <= i < c.spec_serialized().len(),
        b[i] != c.spec_serialized()[i],
        forall|j: int| 0 <= j < b.len() && j != i ==> b[j] == c.spec_serialized()[j],
    ensures
        b.len() >= 12,
        !parse_ok(b),
{
    let s = c.spec_serialized();
    lemma_round_trip(c);
    assert(spec_tag(b) =~= spec_tag(s));
    assert(spec_payload(b) =~= spec_payload(s));
    let t1 = b.subrange(b.len() - 4, b.len() as int);
    let t2 = s.subrange(s.len() - 4, s.len() as int);
    assert(t1[i - (b.len() - 4)] != t2[i - (s.len() - 4)]);
    crate::be32::lemma_u32_from_be_bytes_injective(t1, t2);
}

/// Flipping one bit of a byte always changes the byte.
pub proof fn lemma_bit_flip_changes_byte(x: u8, k: u8)
    requires
        k < 8,
    ensures
        (x ^ (1u8 << k)) != x,
{
    assert(k < 8 ==> (x ^ (1u8 << k)) != x) by (bit_vector);
}

/// Tamper detection, bit-flip form: flipping any single bit anywhere in the
/// trailer checksum field of a valid serialized chunk makes parsing fail;
/// the buffer keeps its length, so the failure is an integrity error by the
/// contract of [`Chunk::try_from`].
pub proof fn lemma_bit_flip_in_trailer_rejected(c: Chunk, i: int, k: u8)
    requires
        c.wf(),
        c.spec_serialized().len() - 4 <= i < c.spec_serialized().len(),
        k < 8,
    ensures
        ({
            let b = c.spec_serialized().update(i, (c.spec_serialized()[i] ^ (1u8 << k)) as u8);
            b.len() >= 12 && !parse_ok(b)
        }),
{
    let s = c.spec_serialized();
    let b = s.update(i, (s[i] ^ (1u8 << k)) as u8);
    lemma_bit_flip_changes_byte(s[i], k);
    lemma_tampered_trailer_rejected(c, b, i);
}

} // verus!
