//! The closed set of failure kinds that the codec can report.

use vstd::prelude::*;

verus! {

/// Every fallible operation of the codec returns one of these kinds; none is
/// swallowed or retried internally.
#[derive(Clone, Copy, Debug, PartialEq, Eq, Structural)]
pub enum PngError {
    /// Chunk type bytes are not ASCII alphabetic, or a type string does not
    /// hold exactly four such bytes.
    InvalidChunkType,
    /// The checksum recomputed during parsing differs from the stored one.
    InvalidCrc,
    /// The buffer holds fewer bytes than a chunk record declares.
    TruncatedInput,
    /// The leading eight bytes of a container do not match the signature.
    InvalidSignature,
    /// Lookup or removal by type string found no matching chunk.
    ChunkNotFound,
}

impl PngError {
    /// A short human-readable name for the error kind.
    pub fn message(&self) -> (r: &'static str)
        ensures
            r@ == self.message_spec(),
    {
        match self {
            PngError::InvalidChunkType => "invalid chunk type",
            PngError::InvalidCrc => "invalid chunk CRC",
            PngError::TruncatedInput => "truncated input",
            PngError::InvalidSignature => "invalid signature",
            PngError::ChunkNotFound => "chunk not found",
        }
    }

    /// What `message` returns for each kind.
    pub open spec fn message_spec(&self) -> Seq<char> {
        match self {
            PngError::InvalidChunkType => "invalid chunk type"@,
            PngError::InvalidCrc => "invalid chunk CRC"@,
            PngError::TruncatedInput => "truncated input"@,
            PngError::InvalidSignature => "invalid signature"@,
            PngError::ChunkNotFound => "chunk not found"@,
        }
    }
}

} // verus!
