//! The PAK archive directory: a count, then fixed-width path entries, then
//! the stored files' bytes back to back.
use crate::bytes::{le32_at, read_bytes, read_u32, utf8_lossy_of, DecodeError};
use crate::ext::{posix_path_text, spec_win_to_posix};
use vstd::prelude::*;

verus! {

/// Each directory entry occupies this many bytes: a 0x26-byte path field,
/// 0x3e opaque bytes, and two 32-bit words.
pub const PAK_DIR_SIZE: usize = 0x6c;

/// One stored file: its POSIX-style path and where its bytes lie in the
/// data region.
#[derive(Clone, Debug, Default, PartialEq, Eq)]
pub struct Dir {
    pub path: String,
    pub start: usize,
    pub size: usize,
}

/// The bytes before the first NUL of a fixed-width path field.
pub open spec fn spec_until_zero(s: Seq<u8>) -> Seq<u8>
    decreases s.len(),
{
    if s.len() == 0 || s[0] == 0 {
        Seq::empty()
    } else {
        Seq::empty().push(s[0]) + spec_until_zero(s.drop_first())
    }
}

/// Copies the bytes before the first NUL.
pub fn take_until_zero(v: &Vec<u8>) -> (r: Vec<u8>)
    ensures
        r@ == spec_until_zero(v@),
{
    let mut out: Vec<u8> = Vec::new();
    let mut i: usize = 0;
    proof {
        assert(v@.skip(0) =~= v@);
        assert(out@ + spec_until_zero(v@) =~= spec_until_zero(v@));
    }
    while i < v.len() && v[i] != 0
        invariant
            i <= v@.len(),
            out@ + spec_until_zero(v@.skip(i as int)) == spec_until_zero(v@),
            forall|j: int| 0 <= j < i ==> v@[j] != 0,
        decreases v@.len() - i,
    {
        let ghost before = out@;
        proof {
            assert(v@.skip(i as int)[0] == v@[i as int]);
            assert(v@.skip(i as int).drop_first() =~= v@.skip(i as int + 1));
        }
        out.push(v[i]);
        proof {
            assert(out@ + spec_until_zero(v@.skip(i as int + 1)) =~= before + spec_until_zero(
                v@.skip(i as int),
            ));
        }
        i += 1;
    }
    proof {
        if i < v@.len() {
            assert(spec_until_zero(v@.skip(i as int)) =~= Seq::<u8>::empty());
        } else {
            assert(v@.skip(i as int) =~= Seq::<u8>::empty());
        }
        assert(out@ + Seq::<u8>::empty() =~= out@);
    }
    out
}

/// What one fixed-width entry at `p` holds: the path bytes up to their NUL
/// padding read as POSIX-style text, then the run's start and size.
pub open spec fn spec_pak_dir_path(b: Seq<u8>, p: int) -> Seq<char> {
    utf8_lossy_of(spec_win_to_posix(spec_until_zero(b.subrange(p, p + 0x26))))
}

/// Decodes the archive's directory: a 32-bit entry count, then that many
/// fixed-width entries.  Returns the entries and the offset where the data
/// region begins.
pub fn parse_pak_dirs(input: &Vec<u8>) -> (r: Result<(Vec<Dir>, usize), DecodeError>)
    ensures
        match r {
            Ok((dirs, base)) => {
                &&& 4 <= input@.len()
                &&& dirs@.len() == le32_at(input@, 0) as int
                &&& base == 4 + dirs@.len() * (PAK_DIR_SIZE as int)
                &&& base <= input@.len()
                &&& forall|i: int|
                    0 <= i < dirs@.len() ==> {
                        &&& (#[trigger] dirs@[i]).path@ == spec_pak_dir_path(
                            input@,
                            4 + i * (PAK_DIR_SIZE as int),
                        )
                        &&& dirs@[i].start == le32_at(
                            input@,
                            4 + i * (PAK_DIR_SIZE as int) + 0x64,
                        ) as usize
                        &&& dirs@[i].size == le32_at(
                            input@,
                            4 + i * (PAK_DIR_SIZE as int) + 0x68,
                        ) as usize
                    }
            },
            Err(e) => e == DecodeError::TruncatedInput,
        },
{
    if input.len() < 4 {
        return Err(DecodeError::TruncatedInput);
    }
    let num_of_dirs = read_u32(input, 0) as usize;
    if num_of_dirs > (input.len() - 4) / PAK_DIR_SIZE {
        return Err(DecodeError::TruncatedInput);
    }
    let mut dirs: Vec<Dir> = Vec::new();
    let mut i: usize = 0;
    while i < num_of_dirs
        invariant
            i <= num_of_dirs,
            4 + num_of_dirs * PAK_DIR_SIZE <= input.len(),
            PAK_DIR_SIZE == 0x6c,
            dirs@.len() == i,
            forall|j: int|
                0 <= j < i ==> {
                    &&& (#[trigger] dirs@[j]).path@ == spec_pak_dir_path(
                        input@,
                        4 + j * (PAK_DIR_SIZE as int),
                    )
                    &&& dirs@[j].start == le32_at(
                        input@,
                        4 + j * (PAK_DIR_SIZE as int) + 0x64,
                    ) as usize
                    &&& dirs@[j].size == le32_at(
                        input@,
                        4 + j * (PAK_DIR_SIZE as int) + 0x68,
                    ) as usize
                },
        decreases num_of_dirs - i,
    {
        let p = 4 + i * PAK_DIR_SIZE;
        proof {
            vstd::arithmetic::mul::lemma_mul_inequality(
                i as int + 1,
                num_of_dirs as int,
                PAK_DIR_SIZE as int,
            );
            assert((i + 1) * (PAK_DIR_SIZE as int) == i * (PAK_DIR_SIZE as int) + PAK_DIR_SIZE)
                by (nonlinear_arith);
        }
        let raw = read_bytes(input, p, 0x26);
        let stem = take_until_zero(&raw);
        let path = posix_path_text(&stem);
        let start = read_u32(input, p + 0x64) as usize;
        let size = read_u32(input, p + 0x68) as usize;
        dirs.push(Dir { path, start, size });
        i += 1;
    }
    proof {
        assert(4 + num_of_dirs * (PAK_DIR_SIZE as int) <= input@.len());
    }
    Ok((dirs, 4 + num_of_dirs * PAK_DIR_SIZE))
}

/// The bytes of one stored file: `size` bytes at `start` within the data
/// region that begins at `base`.
pub fn pak_file_data(input: &Vec<u8>, base: usize, dir: &Dir) -> (r: Result<Vec<u8>, DecodeError>)
    requires
        base <= input.len(),
    ensures
        base + dir.start + dir.size <= input@.len() ==> r == Ok::<Vec<u8>, DecodeError>(r->Ok_0)
            && r->Ok_0@ == input@.subrange(
            base + dir.start,
            base + dir.start + dir.size,
        ),
        base + dir.start + dir.size > input@.len() ==> r == Err::<Vec<u8>, DecodeError>(
            DecodeError::TruncatedInput,
        ),
{
    if dir.start > input.len() - base || dir.size > input.len() - base - dir.start {
        return Err(DecodeError::TruncatedInput);
    }
    Ok(read_bytes(input, base + dir.start, dir.size))
}

} // verus!
