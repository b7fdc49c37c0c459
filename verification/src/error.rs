//! Error taxonomy of the loader. Every failure is a recoverable value; the
//! verified functions of this crate never panic on malformed input.

use vstd::prelude::*;

verus! {

/// The input does not conform to the GLB container or glTF descriptor contract.
#[derive(Debug, Clone)]
pub enum FormatError {
    /// Fewer than twelve bytes: no room for the magic, version and length words.
    TruncatedHeader,
    /// The first word is not the GLB magic; carries the word that was read.
    BadMagic(u32),
    /// Only glTF binary version 2 is supported; carries the version read.
    BadVersion(u32),
    /// A chunk header was started but fewer than eight bytes remain.
    TruncatedChunkHeader,
    /// A chunk declared more data bytes than the stream still holds.
    TruncatedChunk,
    /// A chunk-type code that is neither the JSON nor the binary code.
    UnknownChunkType(u32),
    /// No chunk with the JSON type code is present.
    MissingJsonChunk,
    /// No chunk with the binary type code is present.
    MissingBinaryChunk,
    /// The JSON chunk could not be parsed; carries the parser's diagnostic.
    Json(String),
    /// A JSON value does not have the shape the glTF schema asks of the named field.
    Schema(String),
    /// The JSON declares no buffer to bind the binary chunk to.
    MissingBuffer,
    /// An accessor's component-type code is not one of the six defined codes.
    BadComponentType(u64),
    /// An accessor's element-type string is not one of the seven defined names.
    BadElementType(String),
    /// A POSITION attribute's byte run is not a whole number of vertices;
    /// names the primitive and the accessor whose data was misaligned.
    MisalignedVertexData { mesh: usize, primitive: usize, accessor: usize },
    /// An index accessor's byte run is not a whole number of indices; names
    /// the primitive and the accessor whose data was misaligned.
    MisalignedIndexData { mesh: usize, primitive: usize, accessor: usize },
}

/// A resolved reference falls outside its backing storage. Detected lazily at
/// first data access, never at graph construction.
#[derive(Debug, Clone)]
pub enum BoundsError {
    /// An accessor reference past the end of the accessor table.
    AccessorIndex { index: usize },
    /// A buffer-view reference past the end of the buffer-view table.
    BufferViewIndex { index: usize },
    /// A mesh reference past the end of the mesh table.
    MeshIndex { index: usize },
    /// A node reference past the end of the node table.
    NodeIndex { index: usize },
    /// The accessor's byte range ends past the end of the buffer's data.
    DataRange { accessor: usize },
}

/// A structurally valid input shape that this loader does not implement.
#[derive(Debug, Clone)]
pub enum UnsupportedFeature {
    /// More than one buffer: only the single GLB binary chunk is supported.
    MultipleBuffers,
    /// A buffer with a `uri`: data in an external file is not supported.
    ExternalBufferData,
    /// A primitive without an index accessor.
    NonIndexedPrimitive { mesh: usize, primitive: usize },
    /// A primitive without a POSITION attribute.
    MissingPositionAttribute { mesh: usize, primitive: usize },
}

/// Any failure of the load pipeline or of later data access.
#[derive(Debug, Clone)]
pub enum GltfError {
    Format(FormatError),
    OutOfBounds(BoundsError),
    Unsupported(UnsupportedFeature),
}

} // verus!
