//! GLB binary container reader: decodes the twelve-byte envelope header and
//! the sequence of length-prefixed, type-tagged chunks that follow it.

use vstd::prelude::*;
use vstd::slice::{slice_subrange, slice_to_vec};

use crate::error::{FormatError, GltfError};

verus! {

/// The four bytes "glTF" read as a little-endian word.
pub const GLB_MAGIC: u32 = 0x4654_6C67;

/// Chunk-type code of the JSON chunk ("JSON" little-endian).
pub const GLB_JSON_CHUNK_TYPE: u32 = 0x4E4F_534A;

/// Chunk-type code of the binary chunk ("BIN\0" little-endian).
pub const GLB_BIN_CHUNK_TYPE: u32 = 0x004E_4942;

/// The little-endian 32-bit word at byte offset `i` of `b`.
pub open spec fn le_u32(b: Seq<u8>, i: int) -> u32
    recommends
        0 <= i,
        i + 4 <= b.len(),
{
    (b[i] as int + b[i + 1] as int * 0x100 + b[i + 2] as int * 0x1_0000 + b[i + 3] as int
        * 0x100_0000) as u32
}

/// Reads the little-endian 32-bit word at byte offset `pos`.
pub fn read_u32(b: &[u8], pos: usize) -> (r: u32)
    requires
        pos + 4 <= b@.len(),
    ensures
        r == le_u32(b@, pos as int),
{
    let b0 = b[pos] as u32;
    let b1 = b[pos + 1] as u32;
    let b2 = b[pos + 2] as u32;
    let b3 = b[pos + 3] as u32;
    b0 + b1 * 0x100 + b2 * 0x1_0000 + b3 * 0x100_0000
}

/// The two recognised chunk kinds of a GLB stream.
#[derive(Clone, Copy, Debug, PartialEq, Eq, Structural)]
pub enum GlbChunkType {
    Json,
    Binary,
}

/// The chunk kind a chunk-type code stands for, if it is a recognised code.
pub open spec fn spec_chunk_type_of_code(code: u32) -> Option<GlbChunkType> {
    if code == GLB_JSON_CHUNK_TYPE {
        Some(GlbChunkType::Json)
    } else if code == GLB_BIN_CHUNK_TYPE {
        Some(GlbChunkType::Binary)
    } else {
        None
    }
}

/// One typed chunk of a GLB stream.
pub struct GlbChunk {
    pub chunk_type: GlbChunkType,
    pub data: Vec<u8>,
}

impl View for GlbChunk {
    type V = (GlbChunkType, Seq<u8>);

    open spec fn view(&self) -> (GlbChunkType, Seq<u8>) {
        (self.chunk_type, self.data@)
    }
}

/// The chunks of a GLB stream, in stream order.
pub struct GlbChunks(pub Vec<GlbChunk>);

impl View for GlbChunks {
    type V = Seq<(GlbChunkType, Seq<u8>)>;

    open spec fn view(&self) -> Seq<(GlbChunkType, Seq<u8>)> {
        self.0@.map_values(|c: GlbChunk| c@)
    }
}

/// Parse of the chunk sequence that follows the envelope header: each chunk is
/// a 4-byte length, a 4-byte type code and exactly that many data bytes, and
/// the stream must be exhausted exactly.
pub open spec fn spec_parse_chunks(b: Seq<u8>) -> Result<
    Seq<(GlbChunkType, Seq<u8>)>,
    FormatError,
>
    decreases b.len(),
{
    if b.len() == 0 {
        Ok(Seq::empty())
    } else if b.len() < 8 {
        Err(FormatError::TruncatedChunkHeader)
    } else {
        let clen = le_u32(b, 0) as int;
        let code = le_u32(b, 4);
        if b.len() < 8 + clen {
            Err(FormatError::TruncatedChunk)
        } else {
            match spec_chunk_type_of_code(code) {
                None => Err(FormatError::UnknownChunkType(code)),
                Some(t) => match spec_parse_chunks(b.skip(8 + clen)) {
                    Ok(rest) => Ok(seq![(t, b.subrange(8, 8 + clen))] + rest),
                    Err(e) => Err(e),
                },
            }
        }
    }
}

/// Parse of a whole GLB stream: magic, version and declared total length
/// (the last informational only), then the chunk sequence.
pub open spec fn spec_parse_glb(b: Seq<u8>) -> Result<Seq<(GlbChunkType, Seq<u8>)>, GltfError> {
    if b.len() < 12 {
        Err(GltfError::Format(FormatError::TruncatedHeader))
    } else if le_u32(b, 0) != GLB_MAGIC {
        Err(GltfError::Format(FormatError::BadMagic(le_u32(b, 0))))
    } else if le_u32(b, 4) != 2 {
        Err(GltfError::Format(FormatError::BadVersion(le_u32(b, 4))))
    } else {
        match spec_parse_chunks(b.skip(12)) {
            Ok(cs) => Ok(cs),
            Err(e) => Err(GltfError::Format(e)),
        }
    }
}

/// The data of the first chunk of kind `t`, if one exists.
pub open spec fn spec_get_chunk(cs: Seq<(GlbChunkType, Seq<u8>)>, t: GlbChunkType) -> Option<
    Seq<u8>,
>
    decreases cs.len(),
{
    if cs.len() == 0 {
        None
    } else if cs[0].0 == t {
        Some(cs[0].1)
    } else {
        spec_get_chunk(cs.drop_first(), t)
    }
}

impl GlbChunks {
    /// Decodes a GLB byte stream into its typed chunks. A stream with a bad
    /// magic word or a version other than 2 is rejected before any chunk is
    /// read; a truncated or unknown-typed chunk is rejected where it stands.
    pub fn parse(bytes: &[u8]) -> (r: Result<GlbChunks, GltfError>)
        ensures
            match spec_parse_glb(bytes@) {
                Ok(m) => r matches Ok(c) && c@ == m,
                Err(e) => r matches Err(e2) && e2 == e,
            },
    {
        let n = bytes.len();
        if n < 12 {
            return Err(GltfError::Format(FormatError::TruncatedHeader));
        }
        let magic = read_u32(bytes, 0);
        if magic != GLB_MAGIC {
            return Err(GltfError::Format(FormatError::BadMagic(magic)));
        }
        let version = read_u32(bytes, 4);
        if version != 2 {
            return Err(GltfError::Format(FormatError::BadVersion(version)));
        }
        // The declared total length at offset 8 is informational and not
        // validated against the actual stream length.
        let mut chunks: Vec<GlbChunk> = Vec::new();
        let mut pos: usize = 12;
        proof {
            assert(bytes@.skip(12) =~= bytes@.skip(pos as int));
            assert(chunks@.map_values(|c: GlbChunk| c@) =~= Seq::<
                (GlbChunkType, Seq<u8>),
            >::empty());
        }
        while pos < n
            invariant
                12 <= pos <= n,
                n == bytes@.len(),
                spec_parse_glb(bytes@) == match spec_parse_chunks(bytes@.skip(pos as int)) {
                    Ok(t) => Ok::<Seq<(GlbChunkType, Seq<u8>)>, GltfError>(
                        chunks@.map_values(|c: GlbChunk| c@) + t,
                    ),
                    Err(e) => Err::<Seq<(GlbChunkType, Seq<u8>)>, GltfError>(GltfError::Format(e)),
                },
            decreases n - pos,
        {
            let ghost rest = bytes@.skip(pos as int);
            if n - pos < 8 {
                return Err(GltfError::Format(FormatError::TruncatedChunkHeader));
            }
            let clen = read_u32(bytes, pos);
            let code = read_u32(bytes, pos + 4);
            proof {
                assert(rest.subrange(0, 4) =~= bytes@.subrange(pos as int, pos as int + 4));
                assert(rest.subrange(4, 8) =~= bytes@.subrange(pos as int + 4, pos as int + 8));
                assert(le_u32(rest, 0) == clen);
                assert(le_u32(rest, 4) == code);
            }
            let remaining = (n - pos - 8) as u64;
            if remaining < clen as u64 {
                return Err(GltfError::Format(FormatError::TruncatedChunk));
            }
            let dlen: usize = clen as usize;
            let chunk_type = if code == GLB_JSON_CHUNK_TYPE {
                GlbChunkType::Json
            } else if code == GLB_BIN_CHUNK_TYPE {
                GlbChunkType::Binary
            } else {
                return Err(GltfError::Format(FormatError::UnknownChunkType(code)));
            };
            let data = slice_to_vec(slice_subrange(bytes, pos + 8, pos + 8 + dlen));
            proof {
                assert(rest.subrange(8, 8 + clen as int) =~= bytes@.subrange(
                    pos as int + 8,
                    pos as int + 8 + clen as int,
                ));
                assert(rest.skip(8 + clen as int) =~= bytes@.skip(pos as int + 8 + clen as int));
            }
            let ghost old_chunks = chunks@;
            chunks.push(GlbChunk { chunk_type, data });
            proof {
                let cm = |c: GlbChunk| c@;
                assert(chunks@.map_values(cm) =~= old_chunks.map_values(cm) + seq![
                    (chunk_type, data@),
                ]);
                if let Ok(t) = spec_parse_chunks(bytes@.skip(pos as int + 8 + clen as int)) {
                    assert((old_chunks.map_values(cm) + (seq![(chunk_type, data@)] + t))
                        =~= (old_chunks.map_values(cm) + seq![(chunk_type, data@)]) + t);
                }
            }
            pos = pos + 8 + dlen;
        }
        proof {
            assert(bytes@.skip(pos as int) =~= Seq::<u8>::empty());
            assert(chunks@.map_values(|c: GlbChunk| c@) + Seq::<
                (GlbChunkType, Seq<u8>),
            >::empty() =~= chunks@.map_values(|c: GlbChunk| c@));
        }
        Ok(GlbChunks(chunks))
    }

    /// The data of the first chunk of kind `chunk_type`, copied out, or `None`
    /// when the stream holds no chunk of that kind.
    pub fn get_chunk(&self, chunk_type: GlbChunkType) -> (r: Option<Vec<u8>>)
        ensures
            match spec_get_chunk(self@, chunk_type) {
                Some(d) => r matches Some(v) && v@ == d,
                None => r is None,
            },
    {
        let n = self.0.len();
        let mut i: usize = 0;
        proof {
            assert(self@.skip(0) =~= self@);
        }
        while i < n
            invariant
                0 <= i <= n,
                n == self.0@.len(),
                spec_get_chunk(self@, chunk_type) == spec_get_chunk(self@.skip(i as int), chunk_type),
            decreases n - i,
        {
            if self.0[i].chunk_type == chunk_type {
                proof {
                    assert(self@.skip(i as int)[0] == self.0@[i as int]@);
                }
                return Some(slice_to_vec(self.0[i].data.as_slice()));
            }
            proof {
                assert(self@.skip(i as int)[0] == self.0@[i as int]@);
                assert(self@.skip(i as int).drop_first() =~= self@.skip(i as int + 1));
            }
            i = i + 1;
        }
        proof {
            assert(self@.skip(i as int) =~= Seq::<(GlbChunkType, Seq<u8>)>::empty());
        }
        None
    }
}

/// A bad magic word is rejected from the header alone: whatever follows the
/// first twelve bytes, parsing fails with exactly that magic in the error.
pub proof fn lemma_bad_magic_rejected(b: Seq<u8>)
    requires
        b.len() >= 12,
        le_u32(b, 0) != GLB_MAGIC,
    ensures
        spec_parse_glb(b) == Err::<Seq<(GlbChunkType, Seq<u8>)>, GltfError>(
            GltfError::Format(FormatError::BadMagic(le_u32(b, 0))),
        ),
{
}

/// A version other than 2 is rejected from the header alone, before any chunk
/// is parsed.
pub proof fn lemma_bad_version_rejected(b: Seq<u8>)
    requires
        b.len() >= 12,
        le_u32(b, 0) == GLB_MAGIC,
        le_u32(b, 4) != 2,
    ensures
        spec_parse_glb(b) == Err::<Seq<(GlbChunkType, Seq<u8>)>, GltfError>(
            GltfError::Format(FormatError::BadVersion(le_u32(b, 4))),
        ),
{
}

/// Every chunk a stream parses to carries a byte-exact contiguous slice of
/// that stream.
pub proof fn lemma_chunk_data_in_stream(b: Seq<u8>, cs: Seq<(GlbChunkType, Seq<u8>)>, k: int)
    requires
        spec_parse_chunks(b) == Ok::<Seq<(GlbChunkType, Seq<u8>)>, FormatError>(cs),
        0 <= k < cs.len(),
    ensures
        exists|o: int|
            0 <= o && o + cs[k].1.len() <= b.len() && cs[k].1 == #[trigger] b.subrange(
                o,
                o + cs[k].1.len() as int,
            ),
    decreases b.len(),
{
    let clen = le_u32(b, 0) as int;
    let rest = b.skip(8 + clen);
    let tail = spec_parse_chunks(rest)->Ok_0;
    if k == 0 {
        let o = 8int;
        assert(cs[0].1 == b.subrange(o, o + cs[0].1.len() as int));
    } else {
        assert(cs.drop_first() =~= tail);
        lemma_chunk_data_in_stream(rest, tail, k - 1);
        let o1 = choose|o1: int|
            0 <= o1 && o1 + tail[k - 1].1.len() <= rest.len() && tail[k - 1].1
                == #[trigger] rest.subrange(o1, o1 + tail[k - 1].1.len() as int);
        let o = o1 + 8 + clen;
        assert(cs[k].1 == b.subrange(o, o + cs[k].1.len() as int)) by {
            assert(rest.subrange(o1, o1 + tail[k - 1].1.len() as int) =~= b.subrange(
                o,
                o + cs[k].1.len() as int,
            ));
        }
    }
}

/// What `spec_get_chunk` returns is the data of some chunk of the asked kind.
pub proof fn lemma_get_chunk_is_member(cs: Seq<(GlbChunkType, Seq<u8>)>, t: GlbChunkType)
    requires
        spec_get_chunk(cs, t) is Some,
    ensures
        exists|k: int|
            0 <= k < cs.len() && cs[k].0 == t && cs[k].1 == spec_get_chunk(cs, t)->Some_0,
    decreases cs.len(),
{
    if cs.len() > 0 && cs[0].0 != t {
        lemma_get_chunk_is_member(cs.drop_first(), t);
        let k1 = choose|k1: int|
            0 <= k1 < cs.drop_first().len() && cs.drop_first()[k1].0 == t && cs.drop_first()[k1].1
                == spec_get_chunk(cs.drop_first(), t)->Some_0;
        assert(cs[k1 + 1].0 == t);
    }
}

} // verus!
