//! The fixed 12-byte chunk header that opens every node of the tree.
use crate::bytes::{le32_at, read_u32, DecodeError};
use vstd::prelude::*;

verus! {

/// A chunk header occupies 12 bytes on the wire.
pub const HEADER_SIZE: u32 = 12;

/// The fixed header in front of every chunk: a type tag and two sizes.
/// Both sizes include the header's own 12 bytes; `declared_data_size`
/// bounds the chunk's own payload and `declared_chunk_size` its total
/// extent, children included.  The header reader does not validate the
/// size ordering; the walker does.
#[derive(Clone, Copy, Debug, PartialEq, Eq, Structural)]
pub struct ChunkHeader {
    pub tag: u32,
    pub declared_data_size: u32,
    pub declared_chunk_size: u32,
}

/// The header stored at `b[i..i+12]`: three little-endian 32-bit fields.
pub open spec fn spec_header_at(b: Seq<u8>, i: int) -> ChunkHeader
    recommends
        0 <= i,
        i + 12 <= b.len(),
{
    ChunkHeader {
        tag: le32_at(b, i),
        declared_data_size: le32_at(b, i + 4),
        declared_chunk_size: le32_at(b, i + 8),
    }
}

/// Decodes the 12-byte header at `pos`; `TruncatedInput` if fewer than 12
/// bytes remain.
pub fn read_header(b: &Vec<u8>, pos: usize) -> (r: Result<ChunkHeader, DecodeError>)
    requires
        pos <= b@.len(),
    ensures
        pos + 12 <= b@.len() ==> r == Ok::<ChunkHeader, DecodeError>(
            spec_header_at(b@, pos as int),
        ),
        pos + 12 > b@.len() ==> r == Err::<ChunkHeader, DecodeError>(DecodeError::TruncatedInput),
{
    if b.len() - pos < 12 {
        return Err(DecodeError::TruncatedInput);
    }
    Ok(
        ChunkHeader {
            tag: read_u32(b, pos),
            declared_data_size: read_u32(b, pos + 4),
            declared_chunk_size: read_u32(b, pos + 8),
        },
    )
}

} // verus!
