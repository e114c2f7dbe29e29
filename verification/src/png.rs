//! The container: a fixed eight-byte signature followed by an ordered list of
//! chunk records, parsed from and serialized to a single byte buffer.

use vstd::prelude::*;

use crate::chunk::spec_parse_chunk;
use crate::chunk::Chunk;
use crate::error::PngError;
use vstd::string::StringSliceAdditionalSpecFns;

verus! {

/// The fixed eight-byte signature that opens every container stream.
pub open spec fn spec_signature() -> Seq<u8> {
    seq![0x89u8, 0x50u8, 0x4eu8, 0x47u8, 0x0du8, 0x0au8, 0x1au8, 0x0au8]
}

/// The eight signature bytes.
pub fn signature() -> (r: [u8; 8])
    ensures
        r@ == spec_signature(),
{
    let r = [0x89u8, 0x50u8, 0x4eu8, 0x47u8, 0x0du8, 0x0au8, 0x1au8, 0x0au8];
    proof {
        assert(r@ =~= spec_signature());
    }
    r
}

/// The type bytes and payload of each chunk in a list, in order.
pub open spec fn chunk_models(cs: Seq<Chunk>) -> Seq<(Seq<u8>, Seq<u8>)> {
    cs.map_values(|c: Chunk| (c.type_bytes(), c.payload()))
}

/// What parsing a back-to-back run of chunk records yields: the models of the
/// parsed chunks when the buffer is consumed exactly, or the first failure.
/// The end of the buffer is the end of the chunks; there is no count header.
pub open spec fn spec_parse_chunks(b: Seq<u8>) -> Result<Seq<(Seq<u8>, Seq<u8>)>, PngError>
    decreases b.len(),
{
    if b.len() == 0 {
        Ok(Seq::empty())
    } else {
        match spec_parse_chunk(b) {
            Err(e) => Err(e),
            Ok((t, d)) => match spec_parse_chunks(b.skip(12 + d.len() as int)) {
                Err(e) => Err(e),
                Ok(rest) => Ok(seq![(t, d)] + rest),
            },
        }
    }
}

/// The concatenation of the serialized forms of a list of chunks, in order.
pub open spec fn chunks_bytes(cs: Seq<Chunk>) -> Seq<u8>
    decreases cs.len(),
{
    if cs.len() == 0 {
        Seq::empty()
    } else {
        cs[0].spec_bytes() + chunks_bytes(cs.skip(1))
    }
}

proof fn lemma_chunks_bytes_push(cs: Seq<Chunk>, c: Chunk)
    ensures
        chunks_bytes(cs.push(c)) == chunks_bytes(cs) + c.spec_bytes(),
    decreases cs.len(),
{
    if cs.len() == 0 {
        assert(cs.push(c)[0] == c);
        assert(cs.push(c).skip(1) =~= Seq::<Chunk>::empty());
        assert(chunks_bytes(Seq::<Chunk>::empty()) =~= Seq::<u8>::empty());
        assert(chunks_bytes(cs.push(c)) =~= chunks_bytes(cs) + c.spec_bytes());
    } else {
        assert(cs.push(c)[0] == cs[0]);
        assert(cs.push(c).skip(1) =~= cs.skip(1).push(c));
        lemma_chunks_bytes_push(cs.skip(1), c);
        assert(chunks_bytes(cs.push(c)) =~= chunks_bytes(cs) + c.spec_bytes());
    }
}

/// Whether some chunk in the list has exactly these type bytes.
pub open spec fn has_match(cs: Seq<Chunk>, ts: Seq<u8>) -> bool {
    exists|i: int| 0 <= i < cs.len() && (#[trigger] cs[i]).type_bytes() == ts
}

/// Whether index `i` holds the first chunk, in list order, with these type
/// bytes.
pub open spec fn is_first_match(cs: Seq<Chunk>, ts: Seq<u8>, i: int) -> bool {
    &&& 0 <= i < cs.len()
    &&& cs[i].type_bytes() == ts
    &&& forall|j: int| 0 <= j < i ==> (#[trigger] cs[j]).type_bytes() != ts
}

/// The container: a signature plus an ordered, exclusively owned chunk list.
/// Its view is the chunk sequence; insertion order is meaningful and kept.
#[derive(Debug)]
pub struct Png {
    chunks: Vec<Chunk>,
}

impl View for Png {
    type V = Seq<Chunk>;

    closed spec fn view(&self) -> Seq<Chunk> {
        self.chunks@
    }
}

impl Png {
    /// The serialized form: the signature followed by each chunk's
    /// serialized bytes, in list order.
    pub open spec fn spec_bytes(self) -> Seq<u8> {
        spec_signature() + chunks_bytes(self@)
    }

    /// An empty container.
    pub fn new() -> (r: Png)
        ensures
            r@ == Seq::<Chunk>::empty(),
    {
        Png { chunks: Vec::new() }
    }

    /// A container seeded with the given chunks, in the given order.
    pub fn from_chunks(chunks: Vec<Chunk>) -> (r: Png)
        ensures
            r@ == chunks@,
    {
        Png { chunks }
    }

    /// Parses a full byte buffer: the signature, then chunk records until the
    /// buffer is exhausted. Fails with `InvalidSignature` when the first
    /// eight bytes are missing or wrong; any chunk failure aborts the whole
    /// parse with that error. On success the parsed container serializes back
    /// to exactly the input buffer.
    #[verifier::rlimit(60)]
    pub fn parse(bytes: &[u8]) -> (r: Result<Png, PngError>)
        ensures
            ({
                let b = bytes@;
                if b.len() < 8 || b.subrange(0, 8) != spec_signature() {
                    r == Err::<Png, PngError>(PngError::InvalidSignature)
                } else {
                    match spec_parse_chunks(b.skip(8)) {
                        Err(e) => r == Err::<Png, PngError>(e),
                        Ok(ms) => r matches Ok(png) && chunk_models(png@) == ms && png.spec_bytes()
                            == b && (forall|i: int| 0 <= i < png@.len() ==> (#[trigger] png@[i]).wf()),
                    }
                }
            }),
    {
        let n = bytes.len();
        if n < 8 {
            return Err(PngError::InvalidSignature);
        }
        let sig = signature();
        let mut k: usize = 0;
        while k < 8
            invariant
                k <= 8,
                n == bytes@.len(),
                n >= 8,
                sig@ == spec_signature(),
                forall|j: int| 0 <= j < k ==> bytes@[j] == spec_signature()[j],
            decreases 8 - k,
        {
            if bytes[k] != sig[k] {
                proof {
                    assert(bytes@.subrange(0, 8)[k as int] != spec_signature()[k as int]);
                }
                return Err(PngError::InvalidSignature);
            }
            k = k + 1;
        }
        proof {
            assert(bytes@.subrange(0, 8) =~= spec_signature());
        }
        let mut chunks: Vec<Chunk> = Vec::new();
        let mut offset: usize = 8;
        while offset < n
            invariant
                8 <= offset <= n,
                n == bytes@.len(),
                bytes@.subrange(0, 8) == spec_signature(),
                spec_signature() + chunks_bytes(chunks@) =~= bytes@.subrange(0, offset as int),
                forall|j: int| 0 <= j < chunks@.len() ==> (#[trigger] chunks@[j]).wf(),
                ({
                    match spec_parse_chunks(bytes@.skip(offset as int)) {
                        Ok(ms) => spec_parse_chunks(bytes@.skip(8)) == Ok::<
                            Seq<(Seq<u8>, Seq<u8>)>,
                            PngError,
                        >(chunk_models(chunks@) + ms),
                        Err(e) => spec_parse_chunks(bytes@.skip(8)) == Err::<
                            Seq<(Seq<u8>, Seq<u8>)>,
                            PngError,
                        >(e),
                    }
                }),
            decreases n - offset,
        {
            let rest = &bytes[offset..n];
            proof {
                assert(rest@ =~= bytes@.skip(offset as int));
            }
            match Chunk::parse(rest) {
                Err(e) => {
                    return Err(e);
                },
                Ok(c) => {
                    proof {
                        assert(spec_parse_chunk(rest@) matches Ok(m) && m.0 == c.type_bytes()
                            && m.1 == c.payload());
                    }
                    let size = 12 + (c.length() as usize);
                    let ghost old_chunks = chunks@;
                    let ghost t = c.type_bytes();
                    let ghost d = c.payload();
                    chunks.push(c);
                    proof {
                        let b = bytes@;
                        let off = offset as int;
                        let sz = size as int;
                        assert(b.subrange(0, off + sz) =~= b.subrange(0, off) + rest@.subrange(
                            0,
                            sz,
                        ));
                        lemma_chunks_bytes_push(old_chunks, c);
                        assert(spec_signature() + chunks_bytes(chunks@) =~= b.subrange(
                            0,
                            off + sz,
                        ));
                        assert(rest@.skip(sz) =~= b.skip(off + sz));
                        assert(chunk_models(chunks@) =~= chunk_models(old_chunks) + seq![(t, d)]);
                        match spec_parse_chunks(b.skip(off + sz)) {
                            Ok(ms) => {
                                assert(spec_parse_chunks(b.skip(off)) == Ok::<
                                    Seq<(Seq<u8>, Seq<u8>)>,
                                    PngError,
                                >(seq![(t, d)] + ms));
                                assert(chunk_models(old_chunks) + (seq![(t, d)] + ms) =~= (
                                chunk_models(chunks@) + ms));
                            },
                            Err(_) => {},
                        }
                    }
                    offset = offset + size;
                },
            }
        }
        proof {
            assert(bytes@.skip(offset as int) =~= Seq::<u8>::empty());
            assert(chunk_models(chunks@) + Seq::<(Seq<u8>, Seq<u8>)>::empty() =~= chunk_models(
                chunks@,
            ));
            assert(bytes@.subrange(0, n as int) =~= bytes@);
        }
        Ok(Png { chunks })
    }

    /// Appends the chunk to the end of the list unconditionally; no
    /// reordering or positional validation is performed, so keeping any
    /// terminator-like chunk last is the caller's responsibility.
    pub fn append_chunk(&mut self, chunk: Chunk)
        ensures
            final(self)@ == old(self)@.push(chunk),
    {
        self.chunks.push(chunk);
    }

    /// Removes and returns the first chunk, in list order, whose type's
    /// string form equals `type_str`; later duplicates are untouched. Fails
    /// with `ChunkNotFound`, leaving the list unchanged, when no chunk
    /// matches.
    pub fn remove_chunk(&mut self, type_str: &str) -> (r: Result<Chunk, PngError>)
        ensures
            ({
                let ts = type_str.spec_bytes();
                let cs = old(self)@;
                match r {
                    Ok(c) => exists|i: int|
                        #[trigger] is_first_match(cs, ts, i) && cs[i] == c && final(self)@
                            == cs.remove(i),
                    Err(e) => e == PngError::ChunkNotFound && !has_match(cs, ts) && final(self)@
                        == cs,
                }
            }),
    {
        let ghost cs = self@;
        let ghost tss = type_str.spec_bytes();
        let ts = type_str.as_bytes();
        let mut i: usize = 0;
        while i < self.chunks.len()
            invariant
                i <= self.chunks@.len(),
                self.chunks@ == cs,
                cs == old(self)@,
                ts@ == tss,
                tss == type_str.spec_bytes(),
                forall|j: int| 0 <= j < i ==> (#[trigger] cs[j]).type_bytes() != tss,
            decreases self.chunks@.len() - i,
        {
            if type_matches(&self.chunks[i], ts) {
                proof {
                    assert(is_first_match(cs, tss, i as int));
                }
                let c = self.chunks.remove(i);
                proof {
                    assert(is_first_match(old(self)@, type_str.spec_bytes(), i as int));
                    assert(old(self)@[i as int] == c);
                    assert(self@ == old(self)@.remove(i as int));
                    assert(exists|k: int|
                        #[trigger] is_first_match(old(self)@, type_str.spec_bytes(), k) && old(
                            self,
                        )@[k] == c && self@ == old(self)@.remove(k));
                }
                return Ok(c);
            }
            i = i + 1;
        }
        proof {
            assert(!has_match(cs, tss));
        }
        Err(PngError::ChunkNotFound)
    }

    /// Returns the first chunk, in list order, whose type's string form
    /// equals `type_str`, or nothing when no chunk matches.
    pub fn chunk_by_type(&self, type_str: &str) -> (r: Option<&Chunk>)
        ensures
            ({
                let ts = type_str.spec_bytes();
                match r {
                    None => !has_match(self@, ts),
                    Some(c) => exists|i: int|
                        #[trigger] is_first_match(self@, ts, i) && self@[i] == *c,
                }
            }),
    {
        let ts = type_str.as_bytes();
        let mut i: usize = 0;
        while i < self.chunks.len()
            invariant
                i <= self.chunks@.len(),
                ts@ == type_str.spec_bytes(),
                forall|j: int| 0 <= j < i ==> (#[trigger] self.chunks@[j]).type_bytes() != ts@,
            decreases self.chunks@.len() - i,
        {
            if type_matches(&self.chunks[i], ts) {
                proof {
                    assert(is_first_match(self@, ts@, i as int));
                }
                return Some(&self.chunks[i]);
            }
            i = i + 1;
        }
        None
    }

    /// The chunk list, in order, as a read-only view.
    pub fn chunks(&self) -> (r: &[Chunk])
        ensures
            r@ == self@,
    {
        self.chunks.as_slice()
    }

    /// The serialized container: the signature bytes followed by each
    /// chunk's serialized bytes, concatenated in current list order.
    pub fn as_bytes(&self) -> (r: Vec<u8>)
        ensures
            r@ == self.spec_bytes(),
    {
        let mut out: Vec<u8> = Vec::new();
        let sig = signature();
        let mut k: usize = 0;
        while k < 8
            invariant
                k <= 8,
                sig@ == spec_signature(),
                out@ =~= spec_signature().subrange(0, k as int),
            decreases 8 - k,
        {
            out.push(sig[k]);
            k = k + 1;
        }
        proof {
            assert(spec_signature().subrange(0, 8) =~= spec_signature());
        }
        let mut i: usize = 0;
        while i < self.chunks.len()
            invariant
                i <= self.chunks@.len(),
                out@ =~= spec_signature() + chunks_bytes(self.chunks@.subrange(0, i as int)),
            decreases self.chunks@.len() - i,
        {
            let mut chunk_bytes = self.chunks[i].as_bytes();
            let ghost prefix = self.chunks@.subrange(0, i as int);
            out.append(&mut chunk_bytes);
            proof {
                lemma_chunks_bytes_push(prefix, self.chunks@[i as int]);
                assert(prefix.push(self.chunks@[i as int]) =~= self.chunks@.subrange(
                    0,
                    i + 1 as int,
                ));
            }
            i = i + 1;
        }
        proof {
            assert(self.chunks@.subrange(0, self.chunks@.len() as int) =~= self.chunks@);
        }
        out
    }
}

/// Whether the chunk's four type bytes equal the given byte string.
fn type_matches(c: &Chunk, t: &[u8]) -> (r: bool)
    ensures
        r == (c.type_bytes() == t@),
{
    let tb = c.chunk_type().bytes();
    if t.len() != 4 {
        proof {
            assert(c.type_bytes().len() == 4);
        }
        return false;
    }
    let m = tb[0] == t[0] && tb[1] == t[1] && tb[2] == t[2] && tb[3] == t[3];
    proof {
        if m {
            assert(c.type_bytes() =~= t@);
        }
    }
    m
}

} // verus!
