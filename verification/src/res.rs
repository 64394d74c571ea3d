//! The RES archive: a prelude, a table of compressed-block lengths, a
//! directory of stored files, then the zlib-compressed data itself.
use crate::bytes::{le16_at, le32_at, read_bytes, read_u16, read_u32, utf8_lossy_of, DecodeError};
use vstd::prelude::*;

verus! {

/// The typed failures unpacking a RES archive can end in.
#[derive(Clone, Copy, Debug, PartialEq, Eq, Structural)]
pub enum ResError {
    /// Fewer bytes remain than a block length requires.
    TruncatedInput,
    /// A compressed block did not inflate.
    CorruptBlock,
}

/// The archive's fixed 16-byte prelude.
#[derive(Clone, Copy, Debug, Default, PartialEq, Eq, Structural)]
pub struct ResHeader {
    pub _03: u32,
    pub offset_to_dirs: usize,
    pub _0340: u32,
    pub _0: u32,
}

impl ResHeader {
    /// Decodes the 16-byte prelude.
    pub fn from_bytes(b: &Vec<u8>, pos: usize) -> (r: Result<ResHeader, DecodeError>)
        requires
            pos <= b.len(),
        ensures
            match r {
                Ok(h) => {
                    &&& pos + 16 <= b.len()
                    &&& h._03 == le32_at(b@, pos as int)
                    &&& h.offset_to_dirs == le32_at(b@, pos + 4) as usize
                    &&& h._0340 == le32_at(b@, pos + 8)
                    &&& h._0 == le32_at(b@, pos + 12)
                },
                Err(e) => e == DecodeError::TruncatedInput && pos + 16 > b.len(),
            },
    {
        if b.len() - pos < 16 {
            return Err(DecodeError::TruncatedInput);
        }
        Ok(
            ResHeader {
                _03: read_u32(b, pos),
                offset_to_dirs: read_u32(b, pos + 4) as usize,
                _0340: read_u32(b, pos + 8),
                _0: read_u32(b, pos + 12),
            },
        )
    }
}

/// One stored file: its path as written in the archive, and where its
/// bytes lie in the decompressed data.
#[derive(Clone, Debug, Default, PartialEq, Eq)]
pub struct Dir {
    pub path: String,
    pub decompressed_offset: usize,
    pub decompressed_size: usize,
}

/// The mathematical image of a `Dir`.
pub ghost struct ResDirModel {
    pub path: Seq<char>,
    pub decompressed_offset: usize,
    pub decompressed_size: usize,
}

impl Dir {
    pub open spec fn model(self) -> ResDirModel {
        ResDirModel {
            path: self.path@,
            decompressed_offset: self.decompressed_offset,
            decompressed_size: self.decompressed_size,
        }
    }
}

/// One directory entry: a length-prefixed path, then the file's offset and
/// size within the decompressed data.
pub open spec fn spec_res_dir(b: Seq<u8>, pos: int) -> Result<(ResDirModel, int), DecodeError> {
    if pos + 4 > b.len() {
        Err(DecodeError::TruncatedInput)
    } else {
        let n = le32_at(b, pos) as int;
        if pos + 4 + n + 8 > b.len() {
            Err(DecodeError::TruncatedInput)
        } else {
            Ok(
                (
                    ResDirModel {
                        path: utf8_lossy_of(b.subrange(pos + 4, pos + 4 + n)),
                        decompressed_offset: le32_at(b, pos + 4 + n) as usize,
                        decompressed_size: le32_at(b, pos + 8 + n) as usize,
                    },
                    pos + 12 + n,
                ),
            )
        }
    }
}

impl Dir {
    /// Decodes one directory entry and returns the cursor after it.
    pub fn from_bytes(b: &Vec<u8>, pos: usize) -> (r: Result<(Dir, usize), DecodeError>)
        requires
            pos <= b.len(),
        ensures
            match r {
                Ok((d, next)) => spec_res_dir(b@, pos as int) == Ok::<
                    (ResDirModel, int),
                    DecodeError,
                >((d.model(), next as int)),
                Err(e) => spec_res_dir(b@, pos as int) == Err::<(ResDirModel, int), DecodeError>(e),
            },
    {
        if b.len() - pos < 4 {
            return Err(DecodeError::TruncatedInput);
        }
        let n = read_u32(b, pos) as usize;
        if n > b.len() - pos - 4 || b.len() - (pos + 4 + n) < 8 {
            return Err(DecodeError::TruncatedInput);
        }
        let raw = read_bytes(b, pos + 4, n);
        let path = crate::bytes::utf8_lossy(&raw);
        let decompressed_offset = read_u32(b, pos + 4 + n) as usize;
        let decompressed_size = read_u32(b, pos + 8 + n) as usize;
        Ok((Dir { path, decompressed_offset, decompressed_size }, pos + 12 + n))
    }
}

/// The run of `n` directory entries starting at `pos`, and the cursor
/// after the last.
pub open spec fn spec_res_dirs(b: Seq<u8>, pos: int, n: int) -> Result<
    (Seq<ResDirModel>, int),
    DecodeError,
>
    decreases n,
{
    if n <= 0 {
        Ok((Seq::empty(), pos))
    } else {
        match spec_res_dir(b, pos) {
            Err(e) => Err(e),
            Ok((d, next)) => match spec_res_dirs(b, next, n - 1) {
                Err(e) => Err(e),
                Ok((rest, fin)) => Ok((Seq::empty().push(d) + rest, fin)),
            },
        }
    }
}

/// The models of a run of entries, in order.
pub open spec fn res_dir_models(s: Seq<Dir>) -> Seq<ResDirModel> {
    Seq::new(s.len(), |i: int| s[i].model())
}

/// A decoded archive: prelude, compressed-block length table, directory,
/// and the compressed data bytes.
#[derive(Clone, Debug, Default, PartialEq, Eq)]
pub struct Res {
    pub header: ResHeader,
    pub zlib_offsets: Vec<usize>,
    pub dirs: Vec<Dir>,
    pub compressed_data: Vec<u8>,
}

impl Res {
    /// Decodes the archive's framing: the prelude, the 16-bit length table
    /// of the compressed blocks, the directory entries, and finally the
    /// compressed data, which runs to the end of the buffer.
    pub fn from_bytes(input: &Vec<u8>) -> (r: Result<Res, DecodeError>)
        ensures
            match r {
                Ok(res) => {
                    &&& 20 + le32_at(input@, 16) <= input@.len()
                    &&& res.zlib_offsets@.len() == le32_at(input@, 16) as int / 2
                    &&& forall|i: int|
                        0 <= i < res.zlib_offsets@.len() ==> #[trigger] res.zlib_offsets@[i]
                            == le16_at(input@, 20 + i * 2) as usize
                    &&& match spec_res_dirs(
                        input@,
                        20 + le32_at(input@, 16) + 8,
                        le32_at(input@, 20 + le32_at(input@, 16)) as int,
                    ) {
                        Ok((models, fin)) => res_dir_models(res.dirs@) == models
                            && res.compressed_data@ == input@.subrange(fin, input@.len() as int),
                        Err(_) => false,
                    }
                },
                Err(e) => e == DecodeError::TruncatedInput,
            },
    {
        let header = match ResHeader::from_bytes(input, 0) {
            Ok(h) => h,
            Err(e) => {
                return Err(e);
            },
        };
        if input.len() - 16 < 4 {
            return Err(DecodeError::TruncatedInput);
        }
        let section = read_u32(input, 16) as usize;
        if section > input.len() - 20 {
            return Err(DecodeError::TruncatedInput);
        }
        let n_offsets = section / 2;
        let mut zlib_offsets: Vec<usize> = Vec::new();
        let mut i: usize = 0;
        while i < n_offsets
            invariant
                i <= n_offsets,
                n_offsets == section / 2,
                20 + section <= input.len(),
                zlib_offsets@.len() == i,
                forall|j: int|
                    0 <= j < i ==> #[trigger] zlib_offsets@[j] == le16_at(
                        input@,
                        20 + j * 2,
                    ) as usize,
            decreases n_offsets - i,
        {
            proof {
                assert((i + 1) * 2 <= section) by (nonlinear_arith)
                    requires
                        i < section / 2,
                ;
            }
            zlib_offsets.push(read_u16(input, 20 + i * 2) as usize);
            i += 1;
        }
        let after_section = 20 + section;
        if input.len() - after_section < 8 {
            return Err(DecodeError::TruncatedInput);
        }
        let num_of_dirs = read_u32(input, after_section) as usize;
        let mut dirs: Vec<Dir> = Vec::new();
        let mut pos: usize = after_section + 8;
        let mut k: usize = 0;
        proof {
            assert(res_dir_models(dirs@) =~= Seq::<ResDirModel>::empty());
        }
        while k < num_of_dirs
            invariant
                k <= num_of_dirs,
                pos <= input.len(),
                match spec_res_dirs(input@, pos as int, num_of_dirs - k) {
                    Ok((rest, fin)) => spec_res_dirs(
                        input@,
                        after_section + 8,
                        num_of_dirs as int,
                    ) == Ok::<(Seq<ResDirModel>, int), DecodeError>(
                        (res_dir_models(dirs@) + rest, fin),
                    ),
                    Err(e) => spec_res_dirs(input@, after_section + 8, num_of_dirs as int) == Err::<
                        (Seq<ResDirModel>, int),
                        DecodeError,
                    >(e),
                },
            decreases num_of_dirs - k,
        {
            let ghost prev_models = res_dir_models(dirs@);
            let (d, next) = match Dir::from_bytes(input, pos) {
                Ok(v) => v,
                Err(e) => {
                    return Err(e);
                },
            };
            dirs.push(d);
            pos = next;
            k += 1;
            proof {
                assert(res_dir_models(dirs@) =~= prev_models + Seq::empty().push(d.model()));
                match spec_res_dirs(input@, pos as int, num_of_dirs - k) {
                    Ok((rest, fin)) => {
                        assert(prev_models + (Seq::empty().push(d.model()) + rest)
                            =~= res_dir_models(dirs@) + rest);
                    },
                    Err(_) => {},
                }
            }
        }
        proof {
            assert(res_dir_models(dirs@) + Seq::<ResDirModel>::empty() =~= res_dir_models(dirs@));
        }
        let compressed_data = read_bytes(input, pos, input.len() - pos);
        Ok(Res { header, zlib_offsets, dirs, compressed_data })
    }
}

/// What zune_inflate's zlib decoder yields on a byte sequence: `Some` of
/// the decompressed bytes, or `None` when the stream does not inflate.
/// Decompression is a function of the bytes alone.
pub uninterp spec fn inflate_zlib_of(b: Seq<u8>) -> Option<Seq<u8>>;

/// Relies on `zune_inflate::DeflateDecoder::decode_zlib` (via
/// `DeflateDecoder::new`): with default options it decompresses a zlib
/// stream deterministically from the bytes alone, checksum verified.
#[verifier::external_body]
fn inflate_zlib(data: &Vec<u8>) -> (r: Result<
    Vec<u8>,
    zune_inflate::errors::InflateDecodeErrors,
>)
    ensures
        match r {
            Ok(v) => inflate_zlib_of(data@) == Some(v@),
            Err(_) => inflate_zlib_of(data@) is None,
        },
{
    let mut decoder = zune_inflate::DeflateDecoder::new(data.as_slice());
    decoder.decode_zlib()
}

#[verifier::external_type_specification]
#[verifier::external_body]
pub struct ExInflateDecodeErrors(zune_inflate::errors::InflateDecodeErrors);

/// The decompression of the blocks the length table names, stopping at the
/// first zero length: each block of `offsets[i] + 1` bytes is inflated and
/// the results are concatenated.
pub open spec fn spec_decompress(data: Seq<u8>, offsets: Seq<usize>, i: int, prev: int) -> Result<
    Seq<u8>,
    ResError,
>
    decreases offsets.len() - i,
{
    if i < 0 || i >= offsets.len() || offsets[i] == 0 {
        Ok(Seq::empty())
    } else {
        let end = prev + offsets[i] + 1;
        if end > data.len() {
            Err(ResError::TruncatedInput)
        } else {
            match inflate_zlib_of(data.subrange(prev, end)) {
                None => Err(ResError::CorruptBlock),
                Some(piece) => match spec_decompress(data, offsets, i + 1, end) {
                    Err(e) => Err(e),
                    Ok(rest) => Ok(piece + rest),
                },
            }
        }
    }
}

impl Res {
    /// Inflates the compressed blocks in table order, stopping at the
    /// first zero-length entry, and concatenates the results.
    pub fn decompress(&self) -> (r: Result<Vec<u8>, ResError>)
        ensures
            match r {
                Ok(v) => spec_decompress(self.compressed_data@, self.zlib_offsets@, 0, 0) == Ok::<
                    Seq<u8>,
                    ResError,
                >(v@),
                Err(e) => spec_decompress(self.compressed_data@, self.zlib_offsets@, 0, 0) == Err::<
                    Seq<u8>,
                    ResError,
                >(e),
            },
    {
        let mut buf: Vec<u8> = Vec::new();
        let mut previous_offset: usize = 0;
        let mut i: usize = 0;
        proof {
            assert(buf@ + Seq::<u8>::empty() =~= buf@);
        }
        while i < self.zlib_offsets.len()
            invariant
                i <= self.zlib_offsets@.len(),
                previous_offset <= self.compressed_data.len(),
                match spec_decompress(
                    self.compressed_data@,
                    self.zlib_offsets@,
                    i as int,
                    previous_offset as int,
                ) {
                    Ok(rest) => spec_decompress(self.compressed_data@, self.zlib_offsets@, 0, 0)
                        == Ok::<Seq<u8>, ResError>(buf@ + rest),
                    Err(e) => spec_decompress(self.compressed_data@, self.zlib_offsets@, 0, 0)
                        == Err::<Seq<u8>, ResError>(e),
                },
            decreases self.zlib_offsets@.len() - i,
        {
            let offset = self.zlib_offsets[i];
            if offset == 0 {
                proof {
                    assert(buf@ + Seq::<u8>::empty() =~= buf@);
                }
                return Ok(buf);
            }
            if offset >= self.compressed_data.len() - previous_offset {
                return Err(ResError::TruncatedInput);
            }
            let end = previous_offset + offset + 1;
            let slc = read_bytes(&self.compressed_data, previous_offset, offset + 1);
            let ghost before = buf@;
            let mut piece = match inflate_zlib(&slc) {
                Ok(v) => v,
                Err(_e) => {
                    return Err(ResError::CorruptBlock);
                },
            };
            let ghost piece_view = piece@;
            buf.append(&mut piece);
            previous_offset = end;
            i += 1;
            proof {
                match spec_decompress(
                    self.compressed_data@,
                    self.zlib_offsets@,
                    i as int,
                    previous_offset as int,
                ) {
                    Ok(rest) => {
                        assert(before + (piece_view + rest) =~= buf@ + rest);
                    },
                    Err(_) => {},
                }
            }
        }
        proof {
            assert(buf@ + Seq::<u8>::empty() =~= buf@);
        }
        Ok(buf)
    }
}

/// The bytes of one stored file within the decompressed data.
pub fn res_file_data(decompressed: &Vec<u8>, dir: &Dir) -> (r: Result<Vec<u8>, DecodeError>)
    ensures
        dir.decompressed_offset + dir.decompressed_size <= decompressed@.len() ==> r == Ok::<
            Vec<u8>,
            DecodeError,
        >(r->Ok_0) && r->Ok_0@ == decompressed@.subrange(
            dir.decompressed_offset as int,
            dir.decompressed_offset + dir.decompressed_size,
        ),
        dir.decompressed_offset + dir.decompressed_size > decompressed@.len() ==> r == Err::<
            Vec<u8>,
            DecodeError,
        >(DecodeError::TruncatedInput),
{
    if dir.decompressed_offset > decompressed.len() || dir.decompressed_size > decompressed.len()
        - dir.decompressed_offset {
        return Err(DecodeError::TruncatedInput);
    }
    Ok(read_bytes(decompressed, dir.decompressed_offset, dir.decompressed_size))
}

} // verus!
