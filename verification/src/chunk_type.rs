//! The 4-byte type tag carried by a chunk.
//!
//! The tag is opaque to the codec: it offers byte conversion and a textual
//! rendering, and any legality rules on the tag bytes are owned by the
//! caller, not enforced here.

use crate::text::string_from_utf8;
use vstd::prelude::*;
use vstd::string::StringSliceAdditionalSpecFns;
use vstd::utf8::{decode_utf8, valid_utf8};

verus! {

/// A fixed 4-byte chunk type tag.
#[derive(Debug, Clone, Copy)]
pub struct ChunkType(pub [u8; 4]);

impl ChunkType {
    /// The tag's raw 4 bytes.
    pub fn bytes(&self) -> (r: [u8; 4])
        ensures
            r@ == self.0@,
    {
        self.0
    }

    /// Builds a tag from a 4-byte string; any shorter or longer string is
    /// rejected.
    pub fn from_str(s: &str) -> (r: Option<ChunkType>)
        ensures
            r is Some <==> s.spec_bytes().len() == 4,
            r matches Some(t) ==> t.0@ == s.spec_bytes(),
    {
        let b = s.as_bytes();
        if b.len() == 4 {
            let t = ChunkType(
                [
                    *vstd::slice::slice_index_get(b, 0),
                    *vstd::slice::slice_index_get(b, 1),
                    *vstd::slice::slice_index_get(b, 2),
                    *vstd::slice::slice_index_get(b, 3),
                ],
            );
            proof {
                assert(t.0@ =~= s.spec_bytes());
            }
            Some(t)
        } else {
            None
        }
    }

    /// The tag rendered as text, when its 4 bytes are valid UTF-8.
    pub fn to_text(&self) -> (r: Option<String>)
        ensures
            r is Some <==> valid_utf8(self.0@),
            r matches Some(s) ==> s@ == decode_utf8(self.0@),
    {
        let mut v: Vec<u8> = Vec::new();
        v.push(self.0[0]);
        v.push(self.0[1]);
        v.push(self.0[2]);
        v.push(self.0[3]);
        proof {
            assert(v@ =~= self.0@);
        }
        string_from_utf8(&v)
    }
}

} // verus!
