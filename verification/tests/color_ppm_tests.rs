use chunktree::color::{Color, Rgba, RgbaArray};
use chunktree::ppm::{decimal_digits, decimal_string, BufferType, Ppm, TuplType};

#[test]
fn rgba_layouts_decode_exactly() {
    let b: Vec<u8> = vec![10, 20, 30, 40];
    assert_eq!(
        Rgba::from_bytes_rgba(&b, 0),
        Rgba { r: 10, g: 20, b: 30, a: 40 }
    );
    assert_eq!(
        Rgba::from_bytes_rgb(&b, 1),
        Rgba { r: 20, g: 30, b: 40, a: 0xff }
    );
    assert_eq!(
        Rgba::from_bytes_u8(&b, 2),
        Rgba { r: 30, g: 30, b: 30, a: 0xff }
    );
}

#[test]
fn two_bit_fields_unpack() {
    // 0b11_10_01_00
    let b: Vec<u8> = vec![0xe4];
    assert_eq!(
        Rgba::from_bytes_rrgg_bbaa(&b, 0),
        Rgba { r: 3, g: 2, b: 1, a: 0 }
    );
}

#[test]
fn packed_565_pairs_unpack() {
    // b0 = 0b10101_011, b1 = 0b010_10101
    let b: Vec<u8> = vec![0xab, 0x55];
    let c = Rgba::from_bytes_rgb565(&b, 0);
    assert_eq!(c.r, 0b10101);
    assert_eq!(c.g, 0b011_010);
    assert_eq!(c.b, 0b10101);
    assert_eq!(c.a, 0xff);
    let d = Rgba::from_bytes_bgr565(&b, 0);
    assert_eq!(d.b, 0b10101);
    assert_eq!(d.g, 0b011 + 0b010);
    assert_eq!(d.r, 0b10101);
}

#[test]
fn scale_saturates_per_channel() {
    let c = Rgba { r: 100, g: 1, b: 0, a: 255 };
    let s = c.scale(3);
    assert_eq!(s, Rgba { r: 255, g: 3, b: 0, a: 255 });
}

#[test]
fn swap_exchanges_two_channels() {
    let c = Rgba { r: 1, g: 2, b: 3, a: 4 };
    let s = c.swap(&Color::R, &Color::B);
    assert_eq!(s, Rgba { r: 3, g: 2, b: 1, a: 4 });
    let same = c.swap(&Color::G, &Color::G);
    assert_eq!(same, c);
}

#[test]
fn strip_zeroes_unflagged_channels() {
    let c = Rgba { r: 1, g: 2, b: 3, a: 4 };
    assert_eq!(
        c.strip(true, false, true, false),
        Rgba { r: 1, g: 0, b: 3, a: 0 }
    );
}

#[test]
fn channel_accessors_agree() {
    let c = Rgba { r: 9, g: 8, b: 7, a: 6 };
    assert_eq!(c.to_tuple(), [9, 8, 7, 6]);
    assert_eq!(Rgba::from_tuple([9, 8, 7, 6]), c);
    assert_eq!(c.as_vec(), vec![9, 8, 7, 6]);
    assert_eq!(c.to_byte(&Color::A), 6);
    assert_eq!(c.to_rbg(), Rgba { r: 9, g: 8, b: 7, a: 0xff });
}

#[test]
fn array_round_trips_bytes() {
    let b: Vec<u8> = vec![1, 2, 3, 4, 5, 6, 7, 8];
    let arr = RgbaArray::from_bytes_rgba(&b, 0, 2);
    assert_eq!(arr.inner.len(), 2);
    assert_eq!(arr.to_bytes(), b);
    assert_eq!(arr.to_byte(&Color::G), vec![2, 6]);
}

#[test]
fn array_bulk_operations_apply_elementwise() {
    let arr = RgbaArray::from(vec![
        Rgba { r: 1, g: 2, b: 3, a: 4 },
        Rgba { r: 200, g: 0, b: 5, a: 6 },
    ]);
    let scaled = arr.scale(2);
    assert_eq!(scaled.inner[0], Rgba { r: 2, g: 4, b: 6, a: 8 });
    assert_eq!(scaled.inner[1], Rgba { r: 255, g: 0, b: 10, a: 12 });
    let rgb = arr.to_rgb();
    assert_eq!(rgb.inner[1].a, 0xff);
    let swapped = arr.swap(&Color::R, &Color::A);
    assert_eq!(swapped.inner[0], Rgba { r: 4, g: 2, b: 3, a: 1 });
    let stripped = arr.strip(false, true, true, true);
    assert_eq!(stripped.inner[1].r, 0);
}

#[test]
fn set_max_appends_rising_channels() {
    let arr = RgbaArray::from(vec![
        Rgba { r: 5, g: 0, b: 0, a: 0 },
        Rgba { r: 3, g: 0, b: 0, a: 0 },
        Rgba { r: 9, g: 0, b: 0, a: 0 },
    ]);
    let mut mx: Vec<u8> = vec![4];
    arr.set_max(&mut mx, &Color::R);
    assert_eq!(mx, vec![4, 5, 9]);
}

#[test]
fn decimal_text_is_exact() {
    assert_eq!(decimal_digits(0), vec![b'0']);
    assert_eq!(decimal_digits(7), vec![b'7']);
    assert_eq!(decimal_digits(10), vec![b'1', b'0']);
    assert_eq!(decimal_digits(255), vec![b'2', b'5', b'5']);
    assert_eq!(decimal_string(1069), "1069");
}

#[test]
fn ppm_header_spells_the_geometry() {
    let p = Ppm::new(TuplType::RgbAlpha, 320, 200, 255, BufferType::Default);
    assert_eq!(p.depth, 4);
    assert_eq!(p.tupltype, "RGB_ALPHA");
    assert_eq!(
        p.get_header(),
        "P7\nWIDTH 320\nHEIGHT 200\nDEPTH 4\nMAXVAL 255\nTUPLTYPE RGB_ALPHA\nENDHDR\n"
    );
}

#[test]
fn ppm_bytes_follow_the_header() {
    let p = Ppm::new(
        TuplType::RgbAlpha,
        1,
        1,
        255,
        BufferType::Buffer(vec![9, 8, 7, 6]),
    );
    let out = p.to_bytes(None);
    let mut expected =
        b"P7\nWIDTH 1\nHEIGHT 1\nDEPTH 4\nMAXVAL 255\nTUPLTYPE RGB_ALPHA\nENDHDR\n".to_vec();
    expected.extend_from_slice(&[9, 8, 7, 6]);
    assert_eq!(out, expected);
    // a caller-supplied buffer bypasses the header
    let out2 = p.to_bytes(Some(BufferType::Buffer(vec![1, 2])));
    assert_eq!(out2, vec![1, 2]);
    // split buffers are written back to back
    let out3 = p.to_bytes(Some(BufferType::Buffers(vec![vec![1], vec![2, 3]])));
    assert_eq!(out3, vec![1, 2, 3]);
}

#[test]
fn tupltype_names_match_the_format() {
    assert_eq!(TuplType::BlackAndWhite.name(), "BLACKANDWHITE");
    assert_eq!(TuplType::GrayScaleAlpha.name(), "GRAYSCALE_ALPHA");
    assert_eq!(TuplType::RgbAlpha.name(), "RGB_ALPHA");
}

#[test]
fn color_index_orders_channels() {
    assert_eq!(Color::R.index(), 0);
    assert_eq!(Color::G.index(), 1);
    assert_eq!(Color::B.index(), 2);
    assert_eq!(Color::A.index(), 3);
}
