//! The XBR archive directory: a fixed prelude, then one length-prefixed
//! path entry per stored file, each naming a sector-aligned data run.
use crate::bytes::{le32_at, read_bytes, read_u32, utf8_lossy_of, DecodeError};
use crate::ext::{posix_path_text, spec_win_to_posix};
use vstd::prelude::*;

verus! {

/// XBR data runs are counted in sectors of this many bytes.
pub const CHUNK_SIZE: usize = 0x800;

/// The archive's fixed 24-byte prelude.
#[derive(Clone, Copy, Debug, Default, PartialEq, Eq, Structural)]
pub struct XbrHeader {
    pub _02: u32,
    pub num_of_dirs: usize,
    pub _75d: u32,
    pub _7c2: u32,
    pub dir_section_size: usize,
    pub _7ecb7e: u32,
}

impl XbrHeader {
    /// Decodes the 24-byte prelude.
    pub fn from_bytes(b: &Vec<u8>, pos: usize) -> (r: Result<XbrHeader, DecodeError>)
        requires
            pos <= b.len(),
        ensures
            match r {
                Ok(h) => {
                    &&& pos + 24 <= b.len()
                    &&& h._02 == le32_at(b@, pos as int)
                    &&& h.num_of_dirs == le32_at(b@, pos + 4) as usize
                    &&& h._75d == le32_at(b@, pos + 8)
                    &&& h._7c2 == le32_at(b@, pos + 12)
                    &&& h.dir_section_size == le32_at(b@, pos + 16) as usize
                    &&& h._7ecb7e == le32_at(b@, pos + 20)
                },
                Err(e) => e == DecodeError::TruncatedInput && pos + 24 > b.len(),
            },
    {
        if b.len() - pos < 24 {
            return Err(DecodeError::TruncatedInput);
        }
        Ok(
            XbrHeader {
                _02: read_u32(b, pos),
                num_of_dirs: read_u32(b, pos + 4) as usize,
                _75d: read_u32(b, pos + 8),
                _7c2: read_u32(b, pos + 12),
                dir_section_size: read_u32(b, pos + 16) as usize,
                _7ecb7e: read_u32(b, pos + 20),
            },
        )
    }
}

/// One stored file: its POSIX-style path and its sector-aligned data run.
#[derive(Clone, Debug, Default, PartialEq, Eq)]
pub struct Dir {
    pub path: String,
    pub size: usize,
    pub offset: usize,
}

/// The mathematical image of a `Dir`.
pub ghost struct DirModel {
    pub path: Seq<char>,
    pub size: usize,
    pub offset: usize,
}

impl Dir {
    pub open spec fn model(self) -> DirModel {
        DirModel { path: self.path@, size: self.size, offset: self.offset }
    }
}

/// One directory entry: a length-prefixed path, then the run's size and
/// its sector offset.
pub open spec fn spec_xbr_dir(b: Seq<u8>, pos: int, end: int) -> Result<
    (DirModel, int),
    DecodeError,
> {
    if pos + 4 > end {
        Err(DecodeError::TruncatedInput)
    } else {
        let n = le32_at(b, pos) as int;
        if pos + 4 + n + 8 > end {
            Err(DecodeError::TruncatedInput)
        } else {
            Ok(
                (
                    DirModel {
                        path: utf8_lossy_of(spec_win_to_posix(b.subrange(pos + 4, pos + 4 + n))),
                        size: le32_at(b, pos + 4 + n) as usize,
                        offset: le32_at(b, pos + 8 + n) as usize,
                    },
                    pos + 12 + n,
                ),
            )
        }
    }
}

impl Dir {
    /// Decodes one directory entry and returns the cursor after it.
    pub fn from_bytes(b: &Vec<u8>, pos: usize) -> (r: Result<(Dir, usize), DecodeError>)
        requires
            pos <= b.len(),
        ensures
            match r {
                Ok((d, next)) => spec_xbr_dir(b@, pos as int, b@.len() as int) == Ok::<
                    (DirModel, int),
                    DecodeError,
                >((d.model(), next as int)),
                Err(e) => spec_xbr_dir(b@, pos as int, b@.len() as int) == Err::<
                    (DirModel, int),
                    DecodeError,
                >(e),
            },
    {
        if b.len() - pos < 4 {
            return Err(DecodeError::TruncatedInput);
        }
        let n = read_u32(b, pos) as usize;
        if n > b.len() - pos - 4 || b.len() - (pos + 4 + n) < 8 {
            return Err(DecodeError::TruncatedInput);
        }
        let raw = read_bytes(b, pos + 4, n);
        let path = posix_path_text(&raw);
        let size = read_u32(b, pos + 4 + n) as usize;
        let offset = read_u32(b, pos + 8 + n) as usize;
        Ok((Dir { path, size, offset }, pos + 12 + n))
    }
}

/// The run of `n` directory entries starting at `pos`.
pub open spec fn spec_xbr_dirs(b: Seq<u8>, pos: int, n: int) -> Result<Seq<DirModel>, DecodeError>
    decreases n,
{
    if n <= 0 {
        Ok(Seq::empty())
    } else {
        match spec_xbr_dir(b, pos, b.len() as int) {
            Err(e) => Err(e),
            Ok((d, next)) => match spec_xbr_dirs(b, next, n - 1) {
                Err(e) => Err(e),
                Ok(rest) => Ok(Seq::empty().push(d) + rest),
            },
        }
    }
}

/// The models of a run of entries, in order.
pub open spec fn dir_models(s: Seq<Dir>) -> Seq<DirModel> {
    Seq::new(s.len(), |i: int| s[i].model())
}

/// A decoded archive directory: the prelude and every entry.
#[derive(Clone, Debug, Default, PartialEq, Eq)]
pub struct Xbr {
    pub header: XbrHeader,
    pub dirs: Vec<Dir>,
}

impl Xbr {
    /// Decodes the prelude and the directory entries after it.
    pub fn parse(clean_input: &Vec<u8>) -> (r: Result<Xbr, DecodeError>)
        ensures
            match r {
                Ok(x) => spec_xbr_dirs(clean_input@, 24, x.header.num_of_dirs as int) == Ok::<
                    Seq<DirModel>,
                    DecodeError,
                >(dir_models(x.dirs@)),
                Err(_) => true,
            },
    {
        let header = match XbrHeader::from_bytes(clean_input, 0) {
            Ok(h) => h,
            Err(e) => {
                return Err(e);
            },
        };
        let mut dirs: Vec<Dir> = Vec::new();
        let mut pos: usize = 24;
        let mut i: usize = 0;
        proof {
            assert(dir_models(dirs@) =~= Seq::<DirModel>::empty());
        }
        while i < header.num_of_dirs
            invariant
                i <= header.num_of_dirs,
                pos <= clean_input.len(),
                match spec_xbr_dirs(clean_input@, pos as int, header.num_of_dirs - i) {
                    Ok(rest) => spec_xbr_dirs(clean_input@, 24, header.num_of_dirs as int) == Ok::<
                        Seq<DirModel>,
                        DecodeError,
                    >(dir_models(dirs@) + rest),
                    Err(e) => spec_xbr_dirs(clean_input@, 24, header.num_of_dirs as int) == Err::<
                        Seq<DirModel>,
                        DecodeError,
                    >(e),
                },
            decreases header.num_of_dirs - i,
        {
            let ghost prev_pos = pos as int;
            let ghost prev_models = dir_models(dirs@);
            let ghost left = header.num_of_dirs - i;
            let (d, next) = match Dir::from_bytes(clean_input, pos) {
                Ok(v) => v,
                Err(e) => {
                    return Err(e);
                },
            };
            dirs.push(d);
            pos = next;
            i += 1;
            proof {
                assert(dir_models(dirs@) =~= prev_models + Seq::empty().push(d.model()));
                match spec_xbr_dirs(clean_input@, pos as int, header.num_of_dirs - i) {
                    Ok(rest) => {
                        assert(prev_models + (Seq::empty().push(d.model()) + rest) =~= dir_models(
                            dirs@,
                        ) + rest);
                    },
                    Err(_) => {},
                }
            }
        }
        proof {
            assert(dir_models(dirs@) + Seq::<DirModel>::empty() =~= dir_models(dirs@));
        }
        Ok(Xbr { header, dirs })
    }
}

/// The bytes of one stored file: `size` bytes at the entry's sector
/// offset; `TruncatedInput` when the run leaves the buffer.
pub fn dir_data(dir: &Dir, clean_input: &Vec<u8>) -> (r: Result<Vec<u8>, DecodeError>)
    ensures
        dir.offset * CHUNK_SIZE + dir.size <= clean_input@.len() ==> r == Ok::<Vec<u8>, DecodeError>(
            r->Ok_0,
        ) && r->Ok_0@ == clean_input@.subrange(
            dir.offset * CHUNK_SIZE as int,
            dir.offset * CHUNK_SIZE as int + dir.size,
        ),
        dir.offset * CHUNK_SIZE + dir.size > clean_input@.len() ==> r == Err::<Vec<u8>, DecodeError>(
            DecodeError::TruncatedInput,
        ),
{
    if dir.offset > clean_input.len() / CHUNK_SIZE {
        proof {
            assert(dir.offset * CHUNK_SIZE > clean_input@.len()) by (nonlinear_arith)
                requires
                    dir.offset > clean_input@.len() as int / 0x800,
                    CHUNK_SIZE == 0x800,
                    clean_input@.len() >= 0,
            ;
        }
        return Err(DecodeError::TruncatedInput);
    }
    proof {
        assert(dir.offset * CHUNK_SIZE <= clean_input@.len()) by (nonlinear_arith)
            requires
                dir.offset <= clean_input@.len() as int / 0x800,
                CHUNK_SIZE == 0x800,
                clean_input@.len() >= 0,
        ;
    }
    let data_offset = dir.offset * CHUNK_SIZE;
    if clean_input.len() - data_offset < dir.size {
        return Err(DecodeError::TruncatedInput);
    }
    Ok(read_bytes(clean_input, data_offset, dir.size))
}

} // verus!
