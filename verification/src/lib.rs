//! A chunk-based binary container codec in the style of PNG: four-byte chunk
//! types carrying flag bits, length-prefixed CRC-checked chunk records, and a
//! signature-prefixed container that parses, serializes, and mutates an
//! ordered chunk list.

pub mod chunk;
pub mod chunk_type;
pub mod crc32;
pub mod error;
pub mod png;
pub mod text;
pub mod wire;

pub use chunk::Chunk;
pub use chunk_type::ChunkType;
pub use error::PngError;
pub use png::Png;
