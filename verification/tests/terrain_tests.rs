use chunktree::bytes::DecodeError;
use chunktree::color::{Rgba, RgbaArray};
use chunktree::blocks::{Block7c31, BLOCK_SIZE};
use chunktree::trn::{texture_array_to_giant, Texture};
use chunktree::vertex::{Vertex, VertexArray};

#[test]
fn vertex_record_decodes_its_fields() {
    let mut b: Vec<u8> = Vec::new();
    for v in [10u32, 11, 12, 13] {
        b.extend_from_slice(&v.to_le_bytes()); // w, x, y, z
    }
    b.extend_from_slice(&7u16.to_le_bytes());
    b.extend_from_slice(&9u16.to_le_bytes());
    b.extend_from_slice(&[0xfe; 68]); // seventeen color quads
    b.extend_from_slice(&0u32.to_le_bytes());
    b.push(0x27);
    b.extend_from_slice(&0xdddd_ddddu32.to_le_bytes());
    let v = Vertex::from_bytes(&b, 0, true).expect("vertex");
    assert_eq!(v.vec4.w, 10);
    assert_eq!(v.vec4.x, 11);
    assert_eq!(v.sometimes_null, 7);
    assert_eq!(v.id, 9);
    assert_eq!(v.feffs.inner.len(), 17);
    assert_eq!(v._27, 0x27);
    assert_eq!(v._trailing_null, Some(0xdddd_dddd));
    let bare = Vertex::from_bytes(&b, 0, false).expect("vertex");
    assert_eq!(bare._trailing_null, None);
    assert_eq!(Vertex::from_bytes(&b, 90, false), Err(DecodeError::TruncatedInput));
}

#[test]
fn vertex_array_follows_its_offset_table() {
    // leading vertex at 0, then the offset word names a table of 256
    // offsets, each pointing back at a 97-byte record area
    let mut b: Vec<u8> = vec![0u8; 93];
    b.extend_from_slice(&97u32.to_le_bytes()); // indices_offset = 97
    let table_at = b.len(); // = 97
    for _ in 0..256 {
        b.extend_from_slice(&0x400u32.to_le_bytes()); // every record at +0x400
    }
    assert_eq!(table_at + 0x400, b.len());
    // the shared record all entries point at
    b.extend_from_slice(&[0u8; 97]);
    b[97 + 0x400] = 42; // first byte of the record: low byte of vec4.w
    let a = VertexArray::parse(0, &b).expect("array");
    assert_eq!(a.indices_offset, 97);
    assert_eq!(a.indices.len(), 256);
    assert_eq!(a.vertices.len(), 256);
    assert_eq!(a.vertices[0].vec4.w, 42);
}

#[test]
fn terrain_block_slices_its_tables() {
    let mut b: Vec<u8> = (0..=255u8).cycle().take(BLOCK_SIZE).collect();
    b[0..4].copy_from_slice(&0x7c31u32.to_le_bytes());
    let t = Block7c31::parse(0, &b).expect("block");
    assert_eq!(t._7c31, 0x7c31);
    assert_eq!(t._aeb3.len(), 17);
    assert_eq!(t._aeb3[0], b[4..44].to_vec());
    assert_eq!(t._7f.len(), 17);
    assert_eq!(t._7f[0].inner[0], Rgba { r: b[684], g: b[685], b: b[686], a: 0xff });
    assert_eq!(t._00[16], b[1551 + 16 * 17..1551 + 17 * 17].to_vec());
    assert_eq!(t._0f[0], b[1840..1857].to_vec());
    let short: Vec<u8> = vec![0; 100];
    assert_eq!(Block7c31::parse(0, &short), Err(DecodeError::TruncatedInput));
}

#[test]
fn giant_texture_crops_and_stitches() {
    // 32 tiles of 16x17: each contributes one cropped row of zero pixels?
    // use 17x17 so every tile contributes one row of one pixel
    let width = 17usize;
    let height = 17usize;
    let mut tiles: Vec<Texture> = Vec::new();
    for id in 0..32u8 {
        let pixels: Vec<Rgba> = (0..(height - 8) * width)
            .map(|_| Rgba { r: id, g: 1, b: 2, a: 3 })
            .collect();
        tiles.push(Texture {
            width: width as u32,
            height: height as u32,
            size: (width * height) as u32,
            pixels: RgbaArray { inner: pixels },
        });
    }
    let giant = texture_array_to_giant(width, height, tiles);
    assert_eq!(giant.width, 4 * 17 - 64);
    assert_eq!(giant.height, 8 * 17 - 128);
    assert_eq!(giant.size, giant.width * giant.height);
    // 8 tile rows x 1 pixel row x 4 columns x 1 pixel
    assert_eq!(giant.pixels.inner.len(), 32);
    // row-major: tiles 0..4 first, each one pixel, alpha forced full
    assert_eq!(giant.pixels.inner[0], Rgba { r: 0, g: 1, b: 2, a: 0xff });
    assert_eq!(giant.pixels.inner[1], Rgba { r: 1, g: 1, b: 2, a: 0xff });
    assert_eq!(giant.pixels.inner[4], Rgba { r: 4, g: 1, b: 2, a: 0xff });
    assert_eq!(giant.pixels.inner[31], Rgba { r: 31, g: 1, b: 2, a: 0xff });
}
