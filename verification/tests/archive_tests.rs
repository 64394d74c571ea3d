use chunktree::bytes::DecodeError;
use chunktree::ext::{path_windows_to_posix, FileExtension};
use chunktree::pak::{pak_file_data, parse_pak_dirs, take_until_zero};
use chunktree::res::{res_file_data, Res, ResError};
use chunktree::xbr::{dir_data, Xbr, CHUNK_SIZE};

fn push_u32(out: &mut Vec<u8>, v: u32) {
    out.extend_from_slice(&v.to_le_bytes());
}

#[test]
fn extensions_round_trip() {
    for e in [FileExtension::Xbr, FileExtension::Res, FileExtension::Pak] {
        assert_eq!(FileExtension::from_extension(&e.extension()), e);
    }
    assert_eq!(FileExtension::Xbr.extension(), "xbr");
}

#[test]
fn paths_lose_their_backslashes() {
    assert_eq!(path_windows_to_posix("a\\b\\c.tex"), "a/b/c.tex");
    assert_eq!(path_windows_to_posix("already/posix"), "already/posix");
    assert_eq!(path_windows_to_posix(""), "");
}

#[test]
fn xbr_directory_decodes() {
    let mut b: Vec<u8> = Vec::new();
    push_u32(&mut b, 2); // _02
    push_u32(&mut b, 1); // one entry
    push_u32(&mut b, 0x75d);
    push_u32(&mut b, 0x7c2);
    push_u32(&mut b, 0);
    push_u32(&mut b, 0x7ecb7e);
    push_u32(&mut b, 5); // path length
    b.extend_from_slice(b"a\\b.x");
    push_u32(&mut b, 3); // size
    push_u32(&mut b, 0); // sector offset
    // sector 0 holds the file's three bytes at the buffer's start
    let x = Xbr::parse(&b).expect("parse");
    assert_eq!(x.header.num_of_dirs, 1);
    assert_eq!(x.dirs.len(), 1);
    assert_eq!(x.dirs[0].path, "a/b.x");
    assert_eq!(x.dirs[0].size, 3);
    let data = dir_data(&x.dirs[0], &b).expect("data");
    assert_eq!(data, vec![2, 0, 0]);
    // a run past the buffer is refused
    let far = chunktree::xbr::Dir { path: String::new(), size: 1, offset: b.len() / CHUNK_SIZE + 1 };
    assert_eq!(dir_data(&far, &b), Err(DecodeError::TruncatedInput));
}

#[test]
fn pak_directory_decodes() {
    let mut b: Vec<u8> = Vec::new();
    push_u32(&mut b, 1); // one entry
    let mut path_field = [0u8; 0x26];
    path_field[..7].copy_from_slice(b"d\\f.bin");
    b.extend_from_slice(&path_field);
    b.extend_from_slice(&[0xaa; 0x3e]); // opaque entry bytes
    push_u32(&mut b, 1); // start
    push_u32(&mut b, 2); // size
    b.extend_from_slice(&[0x10, 0x20, 0x30, 0x40]); // data region
    let (dirs, base) = parse_pak_dirs(&b).expect("parse");
    assert_eq!(dirs.len(), 1);
    assert_eq!(base, 4 + 0x6c);
    assert_eq!(dirs[0].path, "d/f.bin");
    assert_eq!(dirs[0].start, 1);
    assert_eq!(dirs[0].size, 2);
    let data = pak_file_data(&b, base, &dirs[0]).expect("data");
    assert_eq!(data, vec![0x20, 0x30]);
}

#[test]
fn until_zero_keeps_the_stem() {
    assert_eq!(take_until_zero(&vec![b'a', b'b', 0, b'c']), vec![b'a', b'b']);
    assert_eq!(take_until_zero(&vec![0, b'c']), Vec::<u8>::new());
    assert_eq!(take_until_zero(&vec![b'x']), vec![b'x']);
}

/// A zlib stream of the five bytes "hello".
fn hello_zlib() -> Vec<u8> {
    vec![
        0x78, 0x9c, 0xcb, 0x48, 0xcd, 0xc9, 0xc9, 0x07, 0x00, 0x06, 0x2c, 0x02, 0x15,
    ]
}

#[test]
fn res_archive_decompresses_its_blocks() {
    let block = hello_zlib();
    let mut b: Vec<u8> = Vec::new();
    push_u32(&mut b, 3); // _03
    push_u32(&mut b, 0); // offset_to_dirs
    push_u32(&mut b, 0x340);
    push_u32(&mut b, 0);
    push_u32(&mut b, 4); // offsets section: two 16-bit entries
    b.extend_from_slice(&((block.len() - 1) as u16).to_le_bytes());
    b.extend_from_slice(&0u16.to_le_bytes()); // terminator
    push_u32(&mut b, 1); // one directory entry
    push_u32(&mut b, 0); // directory section size (unused)
    push_u32(&mut b, 5); // path length
    b.extend_from_slice(b"h.txt");
    push_u32(&mut b, 1); // decompressed offset
    push_u32(&mut b, 3); // decompressed size
    b.extend_from_slice(&block);
    let res = Res::from_bytes(&b).expect("parse");
    assert_eq!(res.zlib_offsets, vec![block.len() - 1, 0]);
    assert_eq!(res.dirs.len(), 1);
    assert_eq!(res.dirs[0].path, "h.txt");
    let data = res.decompress().expect("decompress");
    assert_eq!(data, b"hello");
    let file = res_file_data(&data, &res.dirs[0]).expect("slice");
    assert_eq!(file, b"ell");
}

#[test]
fn res_corrupt_block_is_reported() {
    let mut res = Res::default();
    res.zlib_offsets = vec![9];
    res.compressed_data = vec![0u8; 10]; // not a zlib stream
    assert_eq!(res.decompress(), Err(ResError::CorruptBlock));
}

#[test]
fn res_overlong_block_is_truncated() {
    let mut res = Res::default();
    res.zlib_offsets = vec![100];
    res.compressed_data = vec![0u8; 4];
    assert_eq!(res.decompress(), Err(ResError::TruncatedInput));
}
