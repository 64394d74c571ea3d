use chunktree::bytes::DecodeError;
use chunktree::color::Rgba as PaletteRgba;
use chunktree::dxt::{u32_to_2bit_array, u8_to_2bit_array, Dxt, DxtBank, Rgba, Texture};
use chunktree::trn::{Header, Release, Track};

fn push_u32(out: &mut Vec<u8>, v: u32) {
    out.extend_from_slice(&v.to_le_bytes());
}

#[test]
fn two_bit_arrays_unpack_high_first() {
    assert_eq!(u8_to_2bit_array(0b11_10_01_00), vec![3, 2, 1, 0]);
    assert_eq!(
        u32_to_2bit_array(0xe4_00_ff_1b),
        vec![3, 2, 1, 0, 0, 0, 0, 0, 3, 3, 3, 3, 0, 1, 2, 3]
    );
}

#[test]
fn dxt_palette_pair_unpacks() {
    // b0 = 0b10101_011? for the blue-first layout: blue low bits of b0
    let b: Vec<u8> = vec![0b101_00110, 0b01010_011];
    let c = Rgba::from_bytes_bgr565(&b, 0);
    assert_eq!(c.blue, 0b00110);
    assert_eq!(c.green, (0b011 << 3) + 0b101);
    assert_eq!(c.red, 0b01010);
    assert_eq!(c.alpha, 0xff);
}

#[test]
fn dxt_block_decodes() {
    let mut b: Vec<u8> = Vec::new();
    for w in [0x0000u16, 0xffff, 0x1234, 0xabcd] {
        b.extend_from_slice(&w.to_le_bytes());
    }
    push_u32(&mut b, 0x2000_4108);
    push_u32(&mut b, 0xaaaa_aaaa);
    let d = Dxt::from_bytes(&b, 0);
    assert_eq!(d.c0, Rgba { red: 0, green: 0, blue: 0, alpha: 0xff });
    assert_eq!(
        d.c1,
        Rgba { red: 0b11111, green: 0b111111, blue: 0b11111, alpha: 0xff }
    );
    assert_eq!(d.color_indices, 0x2000_4108);
    assert_eq!(d.alpha_indices, 0xaaaa_aaaa);
    assert_eq!(d.colors_to_bytes()[1], d.c1);
}

#[test]
fn texture_unfolds_to_scanlines() {
    // a 4x4 texture: one block, two scanlines of two pixels
    let mut b: Vec<u8> = Vec::new();
    push_u32(&mut b, 4); // width
    push_u32(&mut b, 4); // height
    push_u32(&mut b, 16); // size: exactly one block
    // palette: four colors with distinct low bytes
    for w in [0x0001u16, 0x0002, 0x0003, 0x0004] {
        b.extend_from_slice(&w.to_le_bytes());
    }
    push_u32(&mut b, 0);
    push_u32(&mut b, 0);
    let (t, next) = Texture::from_bytes(&b, 0).expect("texture");
    assert_eq!(next, b.len());
    assert_eq!(t.width, 4);
    assert_eq!(t.dxts.inner.len(), 1);
    let pixels = t.to_ppm_bytes();
    // two scanlines of 8 bytes each: (c0, c1) then (c2, c3)
    assert_eq!(pixels.len(), 16);
    let d = t.dxts.inner[0];
    let expected: Vec<u8> = vec![
        d.c0.red, d.c0.green, d.c0.blue, d.c0.alpha, d.c1.red, d.c1.green, d.c1.blue, d.c1.alpha,
        d.c2.red, d.c2.green, d.c2.blue, d.c2.alpha, d.c3.red, d.c3.green, d.c3.blue, d.c3.alpha,
    ];
    assert_eq!(pixels, expected);
    assert_eq!(
        t.ppm_header(),
        "P7\nWIDTH 2\nHEIGHT 2\nDEPTH 4\nMAXVAL 255\nTUPLTYPE RGB_ALPHA\nENDHDR\n"
    );
}

#[test]
fn texture_with_tiny_size_still_reads_one_block() {
    let mut b: Vec<u8> = Vec::new();
    push_u32(&mut b, 4);
    push_u32(&mut b, 4);
    push_u32(&mut b, 3); // fewer than sixteen size units
    b.extend_from_slice(&[0u8; 16]);
    let (t, next) = Texture::from_bytes(&b, 0).expect("texture");
    assert_eq!(t.dxts.inner.len(), 1);
    assert_eq!(next, b.len());
}

#[test]
fn bank_counts_its_textures() {
    let mut b: Vec<u8> = Vec::new();
    push_u32(&mut b, 2);
    push_u32(&mut b, 0x36);
    push_u32(&mut b, 0);
    push_u32(&mut b, 1); // one texture
    push_u32(&mut b, 64);
    push_u32(&mut b, 64);
    push_u32(&mut b, 4);
    push_u32(&mut b, 4);
    push_u32(&mut b, 16);
    b.extend_from_slice(&[0u8; 16]);
    let bank = DxtBank::from_bytes(&b).expect("bank");
    assert_eq!(bank.header.num_of_textures, 1);
    assert_eq!(bank.textures.len(), 1);
    let short: Vec<u8> = vec![0; 10];
    assert_eq!(DxtBank::from_bytes(&short), Err(DecodeError::TruncatedInput));
}

#[test]
fn terrain_header_parses_its_tables() {
    let mut b: Vec<u8> = vec![0u8; 1089];
    b[0..4].copy_from_slice(b"PLN\0");
    b[4..9].copy_from_slice(b"7ps2\0");
    b[41..45].copy_from_slice(&1u32.to_le_bytes());
    // palette entry 0
    b[45] = 11;
    b[46] = 22;
    b[47] = 33;
    b[48] = 44;
    b[1069..1073].copy_from_slice(&1.5f32.to_bits().to_le_bytes());
    b[1073..1077].copy_from_slice(&2u32.to_le_bytes());
    b[1077..1081].copy_from_slice(&0x1000u32.to_le_bytes());
    b[1081..1085].copy_from_slice(&2u32.to_le_bytes()); // two block offsets
    b[1085..1089].copy_from_slice(&2u32.to_le_bytes());
    b.extend_from_slice(&0x100u32.to_le_bytes());
    b.extend_from_slice(&0x200u32.to_le_bytes());
    b.extend_from_slice(&1u32.to_le_bytes()); // one texture
    b.extend_from_slice(&1u32.to_le_bytes());
    b.extend_from_slice(&0x300u32.to_le_bytes());
    let h = Header::parse(Release::Proto, Track::Free, &b).expect("header");
    assert_eq!(h.pln, b"PLN\0");
    assert_eq!(h.one, 1);
    assert_eq!(h.colortable.inner.len(), 0x100);
    assert_eq!(h.colortable.inner[0], PaletteRgba { r: 11, g: 22, b: 33, a: 44 });
    assert_eq!(f32::from_bits(h.float), 1.5);
    assert_eq!(h.vertices_offset, 0x1000);
    assert_eq!(h.offset_table, vec![0x100, 0x200]);
    assert_eq!(h.num_of_textures, 1);
    assert_eq!(h.texture_offsets, vec![0x300]);
}

#[test]
fn terrain_texture_resolves_its_palette() {
    let mut file: Vec<u8> = vec![0u8; 1089];
    file[1081..1085].copy_from_slice(&0u32.to_le_bytes());
    file[1085..1089].copy_from_slice(&0u32.to_le_bytes());
    // table counts (zero offsets, zero textures)
    file.extend_from_slice(&0u32.to_le_bytes());
    file.extend_from_slice(&0u32.to_le_bytes());
    // palette entries 0 and 1
    file[45..49].copy_from_slice(&[1, 2, 3, 4]);
    file[49..53].copy_from_slice(&[5, 6, 7, 8]);
    let header = Header::parse(Release::Xbox, Track::Sx, &file).expect("header");
    // a texture record: two ignored words, w, h, size, one ignored word,
    // then palette indices
    let off = file.len();
    let mut b = file.clone();
    push_u32(&mut b, 0x27);
    push_u32(&mut b, 0x01);
    push_u32(&mut b, 2); // width
    push_u32(&mut b, 1); // height
    push_u32(&mut b, 2); // two pixels
    push_u32(&mut b, 0x1234);
    b.push(1);
    b.push(0);
    let t = chunktree::trn::Texture::parse(off, &header, &b).expect("texture");
    assert_eq!(t.width, 2);
    assert_eq!(t.pixels.inner[0], PaletteRgba { r: 5, g: 6, b: 7, a: 8 });
    assert_eq!(t.pixels.inner[1], PaletteRgba { r: 1, g: 2, b: 3, a: 4 });
    let image = t.to_ppm_image();
    assert_eq!(image.width, 2);
    assert_eq!(image.height, 1);
    assert_eq!(image.maxval, 255);
}
