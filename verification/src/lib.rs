//! A binary chunk codec: a length-prefixed, type-tagged, CRC-checked record.
//!
//! A chunk carries a typed byte payload in the layout used by block-structured
//! binary container formats: a 4-byte big-endian payload length, a 4-byte type
//! tag, the payload bytes, and a 4-byte big-endian CRC-32 trailer computed over
//! the tag and payload.

pub mod be32;
pub mod checksum;
pub mod chunk;
pub mod chunk_type;
pub mod decimal;
pub mod text;
