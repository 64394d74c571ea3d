//! The terrain file's vertex sections: fixed 93-byte vertex records and
//! the offset tables that chain them together.
use crate::bytes::{le16_at, le32_at, read_u16, read_u32, read_u8, DecodeError};
use crate::chunks::Vec4f;
use crate::color::{spec_rgba_at, Rgba, RgbaArray};
use vstd::prelude::*;

verus! {

/// A vertex record occupies this many bytes without its trailing word.
pub const VERTEX_SIZE: usize = 93;

/// One vertex record: a 4-component position (word order w, x, y, z on the
/// wire), two small fields, seventeen color quads, and a tail that some
/// sections follow with one extra word.
#[derive(Clone, Debug, Default, PartialEq, Eq)]
pub struct Vertex {
    pub vec4: Vec4f,
    pub sometimes_null: u16,
    pub id: u16,
    pub feffs: RgbaArray,
    pub _00_1: u32,
    pub _27: u8,
    pub _trailing_null: Option<u32>,
}

/// The mathematical image of a `Vertex`.
pub ghost struct VertexModel {
    pub vec4: Vec4f,
    pub sometimes_null: u16,
    pub id: u16,
    pub feffs: Seq<Rgba>,
    pub _00_1: u32,
    pub _27: u8,
    pub _trailing_null: Option<u32>,
}

impl Vertex {
    pub open spec fn model(self) -> VertexModel {
        VertexModel {
            vec4: self.vec4,
            sometimes_null: self.sometimes_null,
            id: self.id,
            feffs: self.feffs.inner@,
            _00_1: self._00_1,
            _27: self._27,
            _trailing_null: self._trailing_null,
        }
    }
}

/// The vertex record stored at `b[p..p+93]` (plus four bytes when a
/// trailing word follows).
pub open spec fn spec_vertex_at(b: Seq<u8>, p: int, trail: bool) -> VertexModel {
    VertexModel {
        vec4: Vec4f {
            w: le32_at(b, p),
            x: le32_at(b, p + 4),
            y: le32_at(b, p + 8),
            z: le32_at(b, p + 12),
        },
        sometimes_null: le16_at(b, p + 16),
        id: le16_at(b, p + 18),
        feffs: Seq::new(17, |j: int| spec_rgba_at(b, p + 20 + j * 4)),
        _00_1: le32_at(b, p + 88),
        _27: b[p + 92],
        _trailing_null: if trail {
            Some(le32_at(b, p + 93))
        } else {
            None
        },
    }
}

impl Vertex {
    /// Decodes the vertex record at `offset`, with its trailing word when
    /// `trail` asks for one.
    pub fn from_bytes(b: &Vec<u8>, offset: usize, trail: bool) -> (r: Result<Vertex, DecodeError>)
        ensures
            match r {
                Ok(v) => offset + 93 <= b@.len() && v.model() == spec_vertex_at(
                    b@,
                    offset as int,
                    trail,
                ),
                Err(e) => e == DecodeError::TruncatedInput,
            },
    {
        let need: usize = if trail {
            97
        } else {
            93
        };
        if offset > b.len() || b.len() - offset < need {
            return Err(DecodeError::TruncatedInput);
        }
        let vec4 = Vec4f {
            w: read_u32(b, offset),
            x: read_u32(b, offset + 4),
            y: read_u32(b, offset + 8),
            z: read_u32(b, offset + 12),
        };
        let sometimes_null = read_u16(b, offset + 16);
        let id = read_u16(b, offset + 18);
        let feffs = RgbaArray::from_bytes_rgba(b, offset + 20, 17);
        let _00_1 = read_u32(b, offset + 88);
        let _27 = read_u8(b, offset + 92);
        let _trailing_null = if trail {
            Some(read_u32(b, offset + 93))
        } else {
            None
        };
        Ok(Vertex { vec4, sometimes_null, id, feffs, _00_1, _27, _trailing_null })
    }
}

/// A vertex array: one leading vertex, an offset word naming a table of
/// 256 record offsets, and one trailing-word vertex per table entry, each
/// read relative to the table's own position.
#[derive(Clone, Debug, Default, PartialEq, Eq)]
pub struct VertexArray {
    pub leading_vertex: Vertex,
    pub indices_offset: usize,
    pub indices: Vec<usize>,
    pub vertices: Vec<Vertex>,
}

impl VertexArray {
    /// Decodes the array whose leading vertex sits at `offset`.
    pub fn parse(offset: usize, clean_input: &Vec<u8>) -> (r: Result<VertexArray, DecodeError>)
        ensures
            match r {
                Ok(a) => {
                    &&& a.leading_vertex.model() == spec_vertex_at(
                        clean_input@,
                        offset as int,
                        false,
                    )
                    &&& a.indices_offset == le32_at(clean_input@, offset + 93) as usize
                    &&& a.indices@.len() == 0x100
                    &&& forall|j: int|
                        0 <= j < 0x100 ==> #[trigger] a.indices@[j] == le32_at(
                            clean_input@,
                            a.indices_offset + j * 4,
                        ) as usize
                    &&& a.vertices@.len() == 0x100
                    &&& forall|j: int|
                        0 <= j < 0x100 ==> (#[trigger] a.vertices@[j]).model() == spec_vertex_at(
                            clean_input@,
                            a.indices_offset + a.indices@[j],
                            true,
                        )
                },
                Err(e) => e == DecodeError::TruncatedInput,
            },
    {
        let leading_vertex = match Vertex::from_bytes(clean_input, offset, false) {
            Ok(v) => v,
            Err(e) => {
                return Err(e);
            },
        };
        let len = clean_input.len();
        proof {
            assert(offset + 93 <= len);
        }
        if len - (offset + 93) < 4 {
            return Err(DecodeError::TruncatedInput);
        }
        let indices_offset = read_u32(clean_input, offset + 93) as usize;
        if indices_offset > clean_input.len() || clean_input.len() - indices_offset < 0x400 {
            return Err(DecodeError::TruncatedInput);
        }
        let mut indices: Vec<usize> = Vec::new();
        let mut i: usize = 0;
        while i < 0x100
            invariant
                i <= 0x100,
                indices_offset + 0x400 <= clean_input.len(),
                indices@.len() == i,
                forall|j: int|
                    0 <= j < i ==> #[trigger] indices@[j] == le32_at(
                        clean_input@,
                        indices_offset + j * 4,
                    ) as usize,
            decreases 0x100 - i,
        {
            indices.push(read_u32(clean_input, indices_offset + i * 4) as usize);
            i += 1;
        }
        let mut vertices: Vec<Vertex> = Vec::new();
        let mut k: usize = 0;
        while k < 0x100
            invariant
                k <= 0x100,
                indices@.len() == 0x100,
                forall|j: int|
                    0 <= j < 0x100 ==> #[trigger] indices@[j] == le32_at(
                        clean_input@,
                        indices_offset + j * 4,
                    ) as usize,
                indices_offset <= clean_input.len(),
                vertices@.len() == k,
                forall|j: int|
                    0 <= j < k ==> (#[trigger] vertices@[j]).model() == spec_vertex_at(
                        clean_input@,
                        indices_offset + indices@[j],
                        true,
                    ),
            decreases 0x100 - k,
        {
            let rel = indices[k];
            if rel > clean_input.len() - indices_offset {
                return Err(DecodeError::TruncatedInput);
            }
            let vertex = match Vertex::from_bytes(clean_input, indices_offset + rel, true) {
                Ok(v) => v,
                Err(e) => {
                    return Err(e);
                },
            };
            vertices.push(vertex);
            k += 1;
        }
        Ok(VertexArray { leading_vertex, indices_offset, indices, vertices })
    }
}

/// The head of a free-ride vertex section: a leading vertex (read at twice
/// the section offset, as the source format's reader does), an offset word,
/// and the non-zero entries of a 256-slot offset table.
#[derive(Clone, Debug, Default, PartialEq, Eq)]
pub struct VertexSectionHeader {
    pub leading_vertex: Vertex,
    pub vertex_array_offsets_offset: usize,
    pub vertex_array_offsets: Vec<usize>,
}

impl VertexSectionHeader {
    /// Decodes the section head at `offset`.
    pub fn parse(offset: usize, clean_input: &Vec<u8>) -> (r: Result<
        VertexSectionHeader,
        DecodeError,
    >)
        ensures
            match r {
                Ok(h) => {
                    &&& h.leading_vertex.model() == spec_vertex_at(
                        clean_input@,
                        offset + offset,
                        false,
                    )
                    &&& h.vertex_array_offsets_offset == le32_at(
                        clean_input@,
                        offset + offset + 93,
                    ) as usize
                    &&& h.vertex_array_offsets@ == Seq::new(
                        0x100,
                        |j: int| le32_at(
                            clean_input@,
                            h.vertex_array_offsets_offset + j * 4,
                        ) as usize,
                    ).filter(|o: usize| o != 0)
                },
                Err(e) => e == DecodeError::TruncatedInput,
            },
    {
        if offset > clean_input.len() || offset > clean_input.len() - offset {
            return Err(DecodeError::TruncatedInput);
        }
        let leading_vertex = match Vertex::from_bytes(clean_input, offset + offset, false) {
            Ok(v) => v,
            Err(e) => {
                return Err(e);
            },
        };
        let len = clean_input.len();
        proof {
            assert(offset + offset + 93 <= len);
        }
        let after = offset + offset + 93;
        if len - after < 4 {
            return Err(DecodeError::TruncatedInput);
        }
        let vertex_array_offsets_offset = read_u32(clean_input, after) as usize;
        if vertex_array_offsets_offset > clean_input.len() || clean_input.len()
            - vertex_array_offsets_offset < 0x400 {
            return Err(DecodeError::TruncatedInput);
        }
        let ghost table = Seq::new(
            0x100nat,
            |j: int| le32_at(clean_input@, vertex_array_offsets_offset + j * 4) as usize,
        );
        let ghost keep = |o: usize| o != 0;
        let mut vertex_array_offsets: Vec<usize> = Vec::new();
        let mut i: usize = 0;
        proof {
            reveal(Seq::filter);
            assert(table.take(0) =~= Seq::<usize>::empty());
            assert(vertex_array_offsets@ =~= table.take(0).filter(keep));
        }
        while i < 0x100
            invariant
                i <= 0x100,
                vertex_array_offsets_offset + 0x400 <= clean_input.len(),
                table == Seq::new(
                    0x100nat,
                    |j: int| le32_at(
                        clean_input@,
                        vertex_array_offsets_offset + j * 4,
                    ) as usize,
                ),
                keep == (|o: usize| o != 0),
                vertex_array_offsets@ == table.take(i as int).filter(keep),
            decreases 0x100 - i,
        {
            let vertex_offset = read_u32(clean_input, vertex_array_offsets_offset + i * 4) as usize;
            proof {
                reveal(Seq::filter);
                assert(table.take(i as int + 1).drop_last() =~= table.take(i as int));
                assert(table.take(i as int + 1).last() == vertex_offset);
            }
            if vertex_offset != 0 {
                vertex_array_offsets.push(vertex_offset);
            }
            proof {
                assert(vertex_array_offsets@ =~= table.take(i as int + 1).filter(keep));
            }
            i += 1;
        }
        proof {
            assert(table.take(0x100) =~= table);
        }
        Ok(
            VertexSectionHeader {
                leading_vertex,
                vertex_array_offsets_offset,
                vertex_array_offsets,
            },
        )
    }
}

/// A free-ride vertex section: its head, then one vertex array per
/// non-zero table entry.
#[derive(Clone, Debug, Default, PartialEq, Eq)]
pub struct VertexSectionFree {
    pub vertex_section_header: VertexSectionHeader,
    pub vertex_arrays: Vec<VertexArray>,
}

impl VertexSectionFree {
    /// Decodes the section head at `offset` and every array it names.
    pub fn parse(offset: usize, clean_input: &Vec<u8>) -> (r: Result<
        VertexSectionFree,
        DecodeError,
    >)
        ensures
            match r {
                Ok(s) => s.vertex_arrays@.len() == s.vertex_section_header.vertex_array_offsets@.len(),
                Err(e) => e == DecodeError::TruncatedInput,
            },
    {
        let vertex_section_header = match VertexSectionHeader::parse(offset, clean_input) {
            Ok(h) => h,
            Err(e) => {
                return Err(e);
            },
        };
        let mut vertex_arrays: Vec<VertexArray> = Vec::new();
        let mut i: usize = 0;
        while i < vertex_section_header.vertex_array_offsets.len()
            invariant
                i <= vertex_section_header.vertex_array_offsets@.len(),
                vertex_arrays@.len() == i,
            decreases vertex_section_header.vertex_array_offsets@.len() - i,
        {
            let o = vertex_section_header.vertex_array_offsets[i];
            let array = match VertexArray::parse(o, clean_input) {
                Ok(a) => a,
                Err(e) => {
                    return Err(e);
                },
            };
            vertex_arrays.push(array);
            i += 1;
        }
        Ok(VertexSectionFree { vertex_section_header, vertex_arrays })
    }
}

/// A supercross vertex section: a single vertex array.
#[derive(Clone, Debug, Default, PartialEq, Eq)]
pub struct VertexSectionSx {
    pub vertex_section: VertexArray,
}

impl VertexSectionSx {
    /// Decodes the single array at `offset`.
    pub fn parse(offset: usize, clean_input: &Vec<u8>) -> (r: Result<VertexSectionSx, DecodeError>)
        ensures
            r is Err ==> r->Err_0 == DecodeError::TruncatedInput,
    {
        let vertex_section = match VertexArray::parse(offset, clean_input) {
            Ok(a) => a,
            Err(e) => {
                return Err(e);
            },
        };
        Ok(VertexSectionSx { vertex_section })
    }
}

} // verus!
