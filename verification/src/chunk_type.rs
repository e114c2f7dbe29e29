//! The four-byte chunk type: an identifier whose bytes must be ASCII
//! alphabetic and whose case bits (the 0x20 bit of each byte) carry four
//! boolean flags.

use vstd::prelude::*;

use crate::error::PngError;
use crate::text::chars_of;
use crate::text::push_char;
use vstd::string::StringSliceAdditionalSpecFns;

verus! {

/// Whether a byte is ASCII alphabetic (`A`-`Z` or `a`-`z`).
pub open spec fn is_alpha(b: u8) -> bool {
    (65 <= b && b <= 90) || (97 <= b && b <= 122)
}

/// Whether a byte sequence is exactly four ASCII alphabetic bytes: the
/// construction invariant of a chunk type.
pub open spec fn alpha_seq4(s: Seq<u8>) -> bool {
    &&& s.len() == 4
    &&& is_alpha(s[0])
    &&& is_alpha(s[1])
    &&& is_alpha(s[2])
    &&& is_alpha(s[3])
}

/// A four-byte chunk type. Construction fails unless all four bytes are
/// ASCII alphabetic; the flag queries read the case bit of one byte each.
/// Equality and ordering operate on the raw bytes.
#[derive(Clone, Copy, Debug, PartialEq, Eq, PartialOrd, Ord)]
pub struct ChunkType {
    bytes: [u8; 4],
}

impl View for ChunkType {
    type V = Seq<u8>;

    closed spec fn view(&self) -> Seq<u8> {
        self.bytes@
    }
}

/// Whether a byte is ASCII alphabetic.
fn is_ascii_alpha(b: u8) -> (r: bool)
    ensures
        r == is_alpha(b),
{
    (65 <= b && b <= 90) || (97 <= b && b <= 122)
}

impl ChunkType {
    /// Builds a chunk type from four raw bytes; fails unless every byte is
    /// ASCII alphabetic.
    pub fn parse(bytes: [u8; 4]) -> (r: Result<ChunkType, PngError>)
        ensures
            alpha_seq4(bytes@) ==> (r matches Ok(t) && t@ == bytes@),
            !alpha_seq4(bytes@) ==> r == Err::<ChunkType, PngError>(PngError::InvalidChunkType),
    {
        if is_ascii_alpha(bytes[0]) && is_ascii_alpha(bytes[1]) && is_ascii_alpha(bytes[2])
            && is_ascii_alpha(bytes[3]) {
            Ok(ChunkType { bytes })
        } else {
            Err(PngError::InvalidChunkType)
        }
    }

    /// Builds a chunk type from a string; fails unless the string is exactly
    /// four ASCII alphabetic bytes.
    pub fn parse_str(s: &str) -> (r: Result<ChunkType, PngError>)
        ensures
            (s.spec_bytes().len() == 4 && alpha_seq4(s.spec_bytes())) ==> (r matches Ok(t) && t@
                == s.spec_bytes()),
            !(s.spec_bytes().len() == 4 && alpha_seq4(s.spec_bytes())) ==> r == Err::<
                ChunkType,
                PngError,
            >(PngError::InvalidChunkType),
    {
        let b = s.as_bytes();
        if b.len() != 4 {
            Err(PngError::InvalidChunkType)
        } else {
            let arr = [b[0], b[1], b[2], b[3]];
            proof {
                assert(arr@ =~= s.spec_bytes());
            }
            ChunkType::parse(arr)
        }
    }

    /// The four raw bytes of the type.
    pub fn bytes(&self) -> (r: [u8; 4])
        ensures
            r@ == self@,
    {
        self.bytes
    }

    /// The type as a string: each byte reinterpreted as the character with
    /// that code point.
    pub fn to_string(&self) -> (r: String)
        ensures
            r@ == chars_of(self@),
    {
        let mut s = String::new();
        push_char(&mut s, self.bytes[0] as char);
        push_char(&mut s, self.bytes[1] as char);
        push_char(&mut s, self.bytes[2] as char);
        push_char(&mut s, self.bytes[3] as char);
        proof {
            assert(s@ =~= chars_of(self@));
        }
        s
    }

    /// What `is_critical` returns: the case bit of byte 0 is clear.
    pub open spec fn spec_is_critical(&self) -> bool {
        self@[0] & 0x20 == 0
    }

    /// Whether the chunk is critical: byte 0 uppercase (ancillary bit off).
    pub fn is_critical(&self) -> (r: bool)
        ensures
            r == self.spec_is_critical(),
    {
        self.bytes[0] & 0x20 == 0
    }

    /// What `is_public` returns: the case bit of byte 1 is clear.
    pub open spec fn spec_is_public(&self) -> bool {
        self@[1] & 0x20 == 0
    }

    /// Whether the chunk type is public: byte 1 uppercase.
    pub fn is_public(&self) -> (r: bool)
        ensures
            r == self.spec_is_public(),
    {
        self.bytes[1] & 0x20 == 0
    }

    /// What `is_reserved_bit_valid` returns: the case bit of byte 2 is clear.
    pub open spec fn spec_is_reserved_bit_valid(&self) -> bool {
        self@[2] & 0x20 == 0
    }

    /// Whether the reserved bit conforms to the format: byte 2 uppercase.
    pub fn is_reserved_bit_valid(&self) -> (r: bool)
        ensures
            r == self.spec_is_reserved_bit_valid(),
    {
        self.bytes[2] & 0x20 == 0
    }

    /// What `is_safe_to_copy` returns: the case bit of byte 3 is set.
    pub open spec fn spec_is_safe_to_copy(&self) -> bool {
        self@[3] & 0x20 == 0x20
    }

    /// Whether the chunk is safe to copy: byte 3 lowercase.
    pub fn is_safe_to_copy(&self) -> (r: bool)
        ensures
            r == self.spec_is_safe_to_copy(),
    {
        self.bytes[3] & 0x20 == 0x20
    }

    /// What `is_valid` returns: all bytes alphabetic and the reserved bit
    /// conforming. A constructed type always has alphabetic bytes, so
    /// validity turns on the reserved bit alone.
    pub open spec fn spec_is_valid(&self) -> bool {
        alpha_seq4(self@) && self.spec_is_reserved_bit_valid()
    }

    /// Whether the type is valid under the format rules. Construction does
    /// not gate on this: a type can be built yet be invalid.
    pub fn is_valid(&self) -> (r: bool)
        ensures
            r == self.spec_is_valid(),
    {
        (is_ascii_alpha(self.bytes[0]) && is_ascii_alpha(self.bytes[1]) && is_ascii_alpha(
            self.bytes[2],
        ) && is_ascii_alpha(self.bytes[3])) && self.is_reserved_bit_valid()
    }
}

} // verus!
