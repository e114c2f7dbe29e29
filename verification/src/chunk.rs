//! A chunk record: a length-prefixed, CRC-checked payload tagged with a
//! four-byte chunk type. The wire layout is big-endian length, type bytes,
//! payload, big-endian CRC-32/ISO-HDLC over type and payload.

use vstd::prelude::*;

use crate::chunk_type::alpha_seq4;
use crate::chunk_type::ChunkType;
use crate::crc32::crc32_checksum;
use crate::crc32::crc32_of;
use crate::error::PngError;
use crate::text::chars_of;
use crate::text::push_char;
use crate::wire::be32_bytes;
use crate::wire::be32_value;
use crate::wire::lemma_be32_decode_encode;
use crate::wire::lemma_be32_encode_decode;
use crate::wire::u32_from_be_bytes;
use crate::wire::u32_to_be_bytes;

verus! {

/// The wire form of a chunk with the given type bytes and payload: big-endian
/// payload length, the four type bytes, the payload, and the big-endian
/// CRC-32/ISO-HDLC checksum of type and payload.
pub open spec fn spec_chunk_wire(t: Seq<u8>, d: Seq<u8>) -> Seq<u8>
    recommends
        t.len() == 4,
        d.len() <= u32::MAX,
{
    be32_bytes(d.len() as u32) + t + d + be32_bytes(crc32_of(t + d))
}

/// What parsing a chunk record from the front of a buffer yields: the type
/// bytes and payload on success, or the first applicable failure. The checks
/// run in order: enough bytes for the declared record, then an alphabetic
/// type, then a matching checksum.
pub open spec fn spec_parse_chunk(b: Seq<u8>) -> Result<(Seq<u8>, Seq<u8>), PngError> {
    if b.len() < 4 {
        Err(PngError::TruncatedInput)
    } else {
        let l = be32_value(b.subrange(0, 4)) as int;
        if b.len() < 12 + l {
            Err(PngError::TruncatedInput)
        } else {
            let t = b.subrange(4, 8);
            let d = b.subrange(8, 8 + l);
            if !alpha_seq4(t) {
                Err(PngError::InvalidChunkType)
            } else if be32_value(b.subrange(8 + l, 12 + l)) != crc32_of(t + d) {
                Err(PngError::InvalidCrc)
            } else {
                Ok((t, d))
            }
        }
    }
}

/// How many bytes the chunk record at the front of the buffer occupies:
/// twelve bytes of framing plus the declared payload length.
pub open spec fn spec_chunk_size(b: Seq<u8>) -> int
    recommends
        b.len() >= 4,
{
    12 + be32_value(b.subrange(0, 4))
}

/// A chunk record. The length and checksum fields are derived: the length is
/// always the payload byte count, and the checksum is always the
/// CRC-32/ISO-HDLC value over the type bytes and payload.
#[derive(Clone, Debug)]
pub struct Chunk {
    length: u32,
    chunk_type: ChunkType,
    chunk_data: Vec<u8>,
    crc: u32,
}

impl Chunk {
    /// The four type bytes.
    pub open spec fn type_bytes(self) -> Seq<u8> {
        self.spec_chunk_type()@
    }

    /// The payload bytes.
    pub closed spec fn payload(self) -> Seq<u8> {
        self.chunk_data@
    }

    /// The stored length field.
    pub closed spec fn spec_length(self) -> u32 {
        self.length
    }

    /// The stored checksum field.
    pub closed spec fn spec_crc(self) -> u32 {
        self.crc
    }

    /// The stored chunk type.
    pub closed spec fn spec_chunk_type(self) -> ChunkType {
        self.chunk_type
    }

    /// The serialized form of this chunk as stored.
    pub open spec fn spec_bytes(self) -> Seq<u8> {
        be32_bytes(self.spec_length()) + self.type_bytes() + self.payload() + be32_bytes(
            self.spec_crc(),
        )
    }

    /// Well-formedness: the type bytes are alphabetic, the length field is
    /// the payload byte count, and the checksum field is the CRC-32/ISO-HDLC
    /// value over type bytes and payload. Both construction paths establish
    /// this, so the serialized form always equals `spec_chunk_wire`.
    pub open spec fn wf(self) -> bool {
        &&& alpha_seq4(self.type_bytes())
        &&& self.spec_length() == self.payload().len()
        &&& self.spec_crc() == crc32_of(self.type_bytes() + self.payload())
    }

    /// Builds a chunk from a type and a payload. The length is the payload
    /// byte count and the checksum is computed, never supplied.
    pub fn new(chunk_type: ChunkType, data: Vec<u8>) -> (r: Chunk)
        requires
            data@.len() <= u32::MAX,
        ensures
            r.spec_chunk_type() == chunk_type,
            r.type_bytes() == chunk_type@,
            r.payload() == data@,
            r.spec_length() == data@.len(),
            r.spec_crc() == crc32_of(chunk_type@ + data@),
            r.spec_bytes() == spec_chunk_wire(chunk_type@, data@),
            alpha_seq4(chunk_type@) ==> r.wf(),
    {
        let length = data.len() as u32;
        let crc = compute_crc(&chunk_type, data.as_slice());
        Chunk { length, chunk_type, chunk_data: data, crc }
    }

    /// Parses a chunk record from the front of the buffer: big-endian length,
    /// four type bytes, that many payload bytes, big-endian checksum. Bytes
    /// past the record are ignored. Fails with `TruncatedInput` when the
    /// buffer holds fewer bytes than the record declares, `InvalidChunkType`
    /// when the type bytes are not alphabetic, and `InvalidCrc` when the
    /// stored checksum differs from the recomputed one.
    pub fn parse(bytes: &[u8]) -> (r: Result<Chunk, PngError>)
        ensures
            ({
                match spec_parse_chunk(bytes@) {
                    Err(e) => r == Err::<Chunk, PngError>(e),
                    Ok((t, d)) => r matches Ok(c) && c.type_bytes() == t && c.payload() == d
                        && c.spec_length() == d.len() && c.spec_crc() == crc32_of(t + d) && c.wf()
                        && c.spec_bytes() == bytes@.subrange(0, spec_chunk_size(bytes@)),
                }
            }),
    {
        let n = bytes.len();
        if n < 4 {
            return Err(PngError::TruncatedInput);
        }
        let length = u32_from_be_bytes(bytes[0], bytes[1], bytes[2], bytes[3]);
        proof {
            assert(seq![bytes@[0], bytes@[1], bytes@[2], bytes@[3]] =~= bytes@.subrange(0, 4));
        }
        let l = length as usize;
        if n < 12 || n - 12 < l {
            return Err(PngError::TruncatedInput);
        }
        let chunk_type = match ChunkType::parse([bytes[4], bytes[5], bytes[6], bytes[7]]) {
            Ok(t) => t,
            Err(_) => {
                proof {
                    assert([bytes@[4], bytes@[5], bytes@[6], bytes@[7]]@ =~= bytes@.subrange(4, 8));
                }
                return Err(PngError::InvalidChunkType);
            },
        };
        proof {
            assert([bytes@[4], bytes@[5], bytes@[6], bytes@[7]]@ =~= bytes@.subrange(4, 8));
        }
        let mut data: Vec<u8> = Vec::new();
        let mut i: usize = 0;
        while i < l
            invariant
                i <= l,
                n == bytes@.len(),
                8 + l <= n,
                data@ =~= bytes@.subrange(8, 8 + i as int),
            decreases l - i,
        {
            data.push(bytes[8 + i]);
            i = i + 1;
        }
        let stored_crc = u32_from_be_bytes(
            bytes[8 + l],
            bytes[8 + l + 1],
            bytes[8 + l + 2],
            bytes[8 + l + 3],
        );
        proof {
            assert(seq![
                bytes@[8 + l as int],
                bytes@[9 + l as int],
                bytes@[10 + l as int],
                bytes@[11 + l as int],
            ] =~= bytes@.subrange(8 + l as int, 12 + l as int));
        }
        let computed_crc = compute_crc(&chunk_type, data.as_slice());
        if stored_crc != computed_crc {
            return Err(PngError::InvalidCrc);
        }
        let c = Chunk { length, chunk_type, chunk_data: data, crc: computed_crc };
        proof {
            lemma_be32_decode_encode(bytes@.subrange(0, 4));
            lemma_be32_decode_encode(bytes@.subrange(8 + l as int, 12 + l as int));
            assert(c.spec_bytes() =~= bytes@.subrange(0, spec_chunk_size(bytes@)));
        }
        Ok(c)
    }

    /// The payload byte count.
    pub fn length(&self) -> (r: u32)
        ensures
            r == self.spec_length(),
    {
        self.length
    }

    /// The chunk's type.
    pub fn chunk_type(&self) -> (r: &ChunkType)
        ensures
            *r == self.spec_chunk_type(),
    {
        &self.chunk_type
    }

    /// The payload bytes.
    pub fn data(&self) -> (r: &[u8])
        ensures
            r@ == self.payload(),
    {
        self.chunk_data.as_slice()
    }

    /// The stored CRC-32/ISO-HDLC checksum.
    pub fn crc(&self) -> (r: u32)
        ensures
            r == self.spec_crc(),
    {
        self.crc
    }

    /// The payload with each byte reinterpreted as the character with that
    /// code point. Not a UTF-8 decode: it succeeds for every byte value, and
    /// characters correspond one to one to the raw bytes.
    pub fn data_as_string(&self) -> (r: Result<String, PngError>)
        ensures
            r matches Ok(s) && s@ == chars_of(self.payload()),
    {
        let mut s = String::new();
        let mut i: usize = 0;
        while i < self.chunk_data.len()
            invariant
                i <= self.chunk_data.len(),
                s@ =~= chars_of(self.chunk_data@.subrange(0, i as int)),
            decreases self.chunk_data.len() - i,
        {
            push_char(&mut s, self.chunk_data[i] as char);
            proof {
                assert(chars_of(self.chunk_data@.subrange(0, i + 1 as int)) =~= chars_of(
                    self.chunk_data@.subrange(0, i as int),
                ).push(self.chunk_data@[i as int] as char));
            }
            i = i + 1;
        }
        proof {
            assert(self.chunk_data@.subrange(0, self.chunk_data@.len() as int) =~= self.chunk_data@);
        }
        Ok(s)
    }

    /// The serialized record: big-endian length, type bytes, payload,
    /// big-endian checksum, in that order.
    pub fn as_bytes(&self) -> (r: Vec<u8>)
        ensures
            r@ == self.spec_bytes(),
    {
        let mut out: Vec<u8> = Vec::new();
        let length_bytes = u32_to_be_bytes(self.length);
        push_array4(&mut out, &length_bytes);
        let type_bytes = self.chunk_type.bytes();
        push_array4(&mut out, &type_bytes);
        let mut i: usize = 0;
        while i < self.chunk_data.len()
            invariant
                i <= self.chunk_data.len(),
                out@ =~= be32_bytes(self.spec_length()) + self.type_bytes()
                    + self.chunk_data@.subrange(0, i as int),
            decreases self.chunk_data.len() - i,
        {
            out.push(self.chunk_data[i]);
            i = i + 1;
        }
        let crc_bytes = u32_to_be_bytes(self.crc);
        push_array4(&mut out, &crc_bytes);
        proof {
            assert(self.chunk_data@.subrange(0, self.chunk_data@.len() as int) =~= self.chunk_data@);
            assert(out@ =~= self.spec_bytes());
        }
        out
    }
}

/// Appends the four bytes of an array to a byte vector.
fn push_array4(out: &mut Vec<u8>, bytes: &[u8; 4])
    ensures
        final(out)@ == old(out)@ + bytes@,
{
    out.push(bytes[0]);
    out.push(bytes[1]);
    out.push(bytes[2]);
    out.push(bytes[3]);
    proof {
        assert(final(out)@ =~= old(out)@ + bytes@);
    }
}

/// The CRC-32/ISO-HDLC checksum over the type bytes followed by the payload.
fn compute_crc(chunk_type: &ChunkType, data: &[u8]) -> (r: u32)
    ensures
        r == crc32_of(chunk_type@ + data@),
{
    let mut buf: Vec<u8> = Vec::new();
    let tb = chunk_type.bytes();
    push_array4(&mut buf, &tb);
    let mut i: usize = 0;
    while i < data.len()
        invariant
            i <= data@.len(),
            buf@ =~= chunk_type@ + data@.subrange(0, i as int),
        decreases data@.len() - i,
    {
        buf.push(data[i]);
        i = i + 1;
    }
    proof {
        assert(data@.subrange(0, data@.len() as int) =~= data@);
        assert(buf@ =~= chunk_type@ + data@);
    }
    crc32_checksum(buf.as_slice())
}

/// Round trip: parsing the wire form of any alphabetic type and any payload
/// that fits the length field succeeds and yields that type and payload.
/// Together with the contracts of `Chunk::new`, `Chunk::as_bytes`, and
/// `Chunk::parse`, parsing a freshly built chunk's bytes reproduces its
/// length, type, payload, and checksum.
pub proof fn lemma_chunk_round_trip(t: Seq<u8>, d: Seq<u8>)
    requires
        alpha_seq4(t),
        d.len() <= u32::MAX,
    ensures
        spec_parse_chunk(spec_chunk_wire(t, d)) == Ok::<(Seq<u8>, Seq<u8>), PngError>((t, d)),
{
    let b = spec_chunk_wire(t, d);
    lemma_be32_encode_decode(d.len() as u32);
    assert(b.subrange(0, 4) =~= be32_bytes(d.len() as u32));
    let l = d.len() as int;
    assert(b.len() == 12 + l);
    assert(b.subrange(4, 8) =~= t);
    assert(b.subrange(8, 8 + l) =~= d);
    assert(b.subrange(8 + l, 12 + l) =~= be32_bytes(crc32_of(t + d)));
    lemma_be32_encode_decode(crc32_of(t + d));
}

/// CRC enforcement: a buffer that agrees with the wire form of a chunk on
/// everything but the checksum field, and whose checksum field holds anything
/// other than the correct encoding (any single flipped bit included), is
/// rejected with `InvalidCrc`.
pub proof fn lemma_crc_mismatch_rejected(t: Seq<u8>, d: Seq<u8>, bad: Seq<u8>)
    requires
        alpha_seq4(t),
        d.len() <= u32::MAX,
        bad.len() == 4,
        bad != be32_bytes(crc32_of(t + d)),
    ensures
        spec_parse_chunk(be32_bytes(d.len() as u32) + t + d + bad) == Err::<
            (Seq<u8>, Seq<u8>),
            PngError,
        >(PngError::InvalidCrc),
{
    let b = be32_bytes(d.len() as u32) + t + d + bad;
    lemma_be32_encode_decode(d.len() as u32);
    assert(b.subrange(0, 4) =~= be32_bytes(d.len() as u32));
    let l = d.len() as int;
    assert(b.len() == 12 + l);
    assert(b.subrange(4, 8) =~= t);
    assert(b.subrange(8, 8 + l) =~= d);
    assert(b.subrange(8 + l, 12 + l) =~= bad);
    lemma_be32_decode_encode(bad);
    assert(be32_value(bad) != crc32_of(t + d)) by {
        if be32_value(bad) == crc32_of(t + d) {
            lemma_be32_encode_decode(crc32_of(t + d));
            assert(be32_bytes(be32_value(bad)) == bad);
        }
    }
}

/// Truncation: a buffer too short for the record its length field declares —
/// including one too short to hold the length field itself — is rejected with
/// `TruncatedInput`; parsing never reads past the buffer.
pub proof fn lemma_truncation_rejected(b: Seq<u8>)
    requires
        b.len() < 4 || b.len() < 12 + be32_value(b.subrange(0, 4)),
    ensures
        spec_parse_chunk(b) == Err::<(Seq<u8>, Seq<u8>), PngError>(PngError::TruncatedInput),
{
}

} // verus!
