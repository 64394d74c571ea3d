//! Block-compressed texture banks: 5-6-5 palette pairs, 16-byte blocks and
//! the pixel rows they unfold into.
use crate::bytes::{le32_at, read_u32, DecodeError};
use crate::ppm::{spec_ppm_header, Ppm, TuplType};
use vstd::prelude::*;

verus! {

/// One color of a block palette; each channel still holds its packed
/// 5- or 6-bit value.
#[derive(Clone, Copy, Debug, Default, PartialEq, Eq, Structural)]
pub struct Rgba {
    pub red: u8,
    pub green: u8,
    pub blue: u8,
    pub alpha: u8,
}

/// The palette color stored at `b[i..i+2]` with blue in the low bits of
/// the first byte.
pub open spec fn spec_dxt_bgr565_at(b: Seq<u8>, i: int) -> Rgba {
    Rgba {
        red: (b[i + 1] & 0xf8) >> 3u8,
        green: (((b[i + 1] & 0x07) << 3u8) + ((b[i] & 0xe0) >> 5u8)) as u8,
        blue: b[i] & 0x1f,
        alpha: 0xff,
    }
}

/// The palette color stored at `b[i..i+2]` with red first; the middle
/// channel mixes its fields with a bitwise and.
pub open spec fn spec_dxt_rgb565_at(b: Seq<u8>, i: int) -> Rgba {
    Rgba {
        red: (b[i] & 0xf8) >> 3u8,
        green: ((b[i] & 0x07) << 3u8) & ((b[i + 1] & 0xe0) >> 5u8),
        blue: b[i + 1] & 0x1f,
        alpha: 0xff,
    }
}

impl Rgba {
    /// Decodes a packed pair with blue in the first byte's low bits.
    pub fn from_bytes_bgr565(b: &Vec<u8>, pos: usize) -> (r: Rgba)
        requires
            pos + 2 <= b.len(),
        ensures
            r == spec_dxt_bgr565_at(b@, pos as int),
    {
        let b0 = b[pos];
        let b1 = b[pos + 1];
        let g = ((b1 & 0x07) << 3) as u16 + ((b0 & 0xe0) >> 5) as u16;
        proof {
            assert(((b1 & 0x07) << 3u8) as u16 + (((b0 & 0xe0) >> 5u8) as u16) <= 255)
                by (bit_vector);
            assert((((b1 & 0x07) << 3u8) as u16 + (((b0 & 0xe0) >> 5u8) as u16)) as u8 == (((b1
                & 0x07) << 3u8) + ((b0 & 0xe0) >> 5u8)) as u8) by (bit_vector);
        }
        Rgba { red: (b1 & 0xf8) >> 3, green: g as u8, blue: b0 & 0x1f, alpha: 0xff }
    }

    /// Decodes a packed pair with red first, keeping the source's bitwise
    /// mixing of the middle channel.
    pub fn from_bytes_rgb565(b: &Vec<u8>, pos: usize) -> (r: Rgba)
        requires
            pos + 2 <= b.len(),
        ensures
            r == spec_dxt_rgb565_at(b@, pos as int),
    {
        let b0 = b[pos];
        let b1 = b[pos + 1];
        Rgba {
            red: (b0 & 0xf8) >> 3,
            green: ((b0 & 0x07) << 3) & ((b1 & 0xe0) >> 5),
            blue: b1 & 0x1f,
            alpha: 0xff,
        }
    }

    /// The channels as four bytes, in R, G, B, A order.
    pub fn to_bytes(&self) -> (r: [u8; 4])
        ensures
            r@ == seq![self.red, self.green, self.blue, self.alpha],
    {
        let t = [self.red, self.green, self.blue, self.alpha];
        proof {
            assert(t@ =~= seq![self.red, self.green, self.blue, self.alpha]);
        }
        t
    }
}

/// A 32-bit value split into its sixteen 2-bit fields, most significant
/// byte first.
pub fn u32_to_2bit_array(value: u32) -> (r: Vec<u8>)
    ensures
        r@ == spec_2bit_fields((value >> 24u32) as u8) + spec_2bit_fields(
            ((value >> 16u32) & 0xff) as u8,
        ) + spec_2bit_fields(((value >> 8u32) & 0xff) as u8) + spec_2bit_fields(
            (value & 0xff) as u8,
        ),
{
    let b0: u32 = (value & 0xff000000) >> 24;
    let b1: u32 = (value & 0xff0000) >> 16;
    let b2: u32 = (value & 0xff00) >> 8;
    let b3: u32 = value & 0xff;
    proof {
        assert((value & 0xff000000) >> 24u32 == value >> 24u32) by (bit_vector);
        assert((value & 0xff0000) >> 16u32 == (value >> 16u32) & 0xff) by (bit_vector);
        assert((value & 0xff00) >> 8u32 == (value >> 8u32) & 0xff) by (bit_vector);
        assert(value & 0xff == (value & 0xff) & 0xff) by (bit_vector);
        assert((value & 0xff000000) >> 24u32 <= 0xff) by (bit_vector);
        assert((value & 0xff0000) >> 16u32 <= 0xff) by (bit_vector);
        assert((value & 0xff00) >> 8u32 <= 0xff) by (bit_vector);
        assert(value & 0xff <= 0xff) by (bit_vector);
    }
    let mut out: Vec<u8> = Vec::new();
    let mut b0s = u8_to_2bit_array(b0 as u8);
    let mut b1s = u8_to_2bit_array(b1 as u8);
    let mut b2s = u8_to_2bit_array(b2 as u8);
    let mut b3s = u8_to_2bit_array(b3 as u8);
    out.append(&mut b0s);
    out.append(&mut b1s);
    out.append(&mut b2s);
    out.append(&mut b3s);
    out
}

/// A byte's four 2-bit fields, most significant first.
pub open spec fn spec_2bit_fields(v: u8) -> Seq<u8> {
    seq![(v & 0xc0) >> 6u8, (v & 0x30) >> 4u8, (v & 0x0c) >> 2u8, v & 0x03]
}

/// A byte split into its four 2-bit fields.
pub fn u8_to_2bit_array(value: u8) -> (r: Vec<u8>)
    ensures
        r@ == spec_2bit_fields(value),
{
    let n0: u8 = (value & 0b1100_0000) >> 6;
    let n1: u8 = (value & 0b11_0000) >> 4;
    let n2: u8 = (value & 0b1100) >> 2;
    let n3: u8 = value & 0b11;
    let mut v: Vec<u8> = Vec::new();
    v.push(n0);
    v.push(n1);
    v.push(n2);
    v.push(n3);
    proof {
        assert(v@ =~= spec_2bit_fields(value));
    }
    v
}

/// One 16-byte block: a four-color palette and two index words.
#[derive(Clone, Copy, Debug, Default, PartialEq, Eq, Structural)]
pub struct Dxt {
    pub c0: Rgba,
    pub c1: Rgba,
    pub c2: Rgba,
    pub c3: Rgba,
    pub color_indices: u32,
    pub alpha_indices: u32,
}

/// The block stored at `b[i..i+16]`.
pub open spec fn spec_dxt_at(b: Seq<u8>, i: int) -> Dxt {
    Dxt {
        c0: spec_dxt_bgr565_at(b, i),
        c1: spec_dxt_bgr565_at(b, i + 2),
        c2: spec_dxt_bgr565_at(b, i + 4),
        c3: spec_dxt_bgr565_at(b, i + 6),
        color_indices: le32_at(b, i + 8),
        alpha_indices: le32_at(b, i + 12),
    }
}

impl Dxt {
    /// Decodes one 16-byte block.
    pub fn from_bytes(b: &Vec<u8>, pos: usize) -> (r: Dxt)
        requires
            pos + 16 <= b.len(),
        ensures
            r == spec_dxt_at(b@, pos as int),
    {
        Dxt {
            c0: Rgba::from_bytes_bgr565(b, pos),
            c1: Rgba::from_bytes_bgr565(b, pos + 2),
            c2: Rgba::from_bytes_bgr565(b, pos + 4),
            c3: Rgba::from_bytes_bgr565(b, pos + 6),
            color_indices: read_u32(b, pos + 8),
            alpha_indices: read_u32(b, pos + 12),
        }
    }

    /// The block's palette, in order.
    pub fn colors_to_bytes(&self) -> (r: [Rgba; 4])
        ensures
            r@ == seq![self.c0, self.c1, self.c2, self.c3],
    {
        let t = [self.c0, self.c1, self.c2, self.c3];
        proof {
            assert(t@ =~= seq![self.c0, self.c1, self.c2, self.c3]);
        }
        t
    }
}

/// The palette color a pixel slot of a block names.
pub open spec fn spec_block_color(d: Dxt, idx: int) -> Rgba {
    if idx == 0 {
        d.c0
    } else if idx == 1 {
        d.c1
    } else if idx == 2 {
        d.c2
    } else {
        d.c3
    }
}

/// A run of 16-byte blocks.
#[derive(Clone, Debug, Default, PartialEq, Eq)]
pub struct DxtArray {
    pub inner: Vec<Dxt>,
}

impl DxtArray {
    /// Decodes `num` consecutive blocks.
    pub fn from_bytes(b: &Vec<u8>, pos: usize, num: usize) -> (r: Self)
        requires
            pos + num * 16 <= b.len(),
        ensures
            r.inner@ == Seq::new(num as nat, |j: int| spec_dxt_at(b@, pos + j * 16)),
    {
        let mut inner: Vec<Dxt> = Vec::new();
        let mut i: usize = 0;
        while i < num
            invariant
                i <= num,
                pos + num * 16 <= b.len(),
                inner@ == Seq::new(i as nat, |j: int| spec_dxt_at(b@, pos + j * 16)),
            decreases num - i,
        {
            inner.push(Dxt::from_bytes(b, pos + i * 16));
            assert(inner@ =~= Seq::new((i + 1) as nat, |j: int| spec_dxt_at(b@, pos + j * 16)));
            i += 1;
        }
        DxtArray { inner }
    }
}

/// One texture of a bank: its pixel geometry and its blocks.
#[derive(Clone, Debug, Default, PartialEq, Eq)]
pub struct Texture {
    pub width: usize,
    pub height: usize,
    pub size: usize,
    pub dxts: DxtArray,
}

/// One scanline of a texture's unfolded image: for each block column, the
/// two palette colors of the block row's line `y`, four bytes per color.
pub open spec fn spec_scanline(dxts: Seq<Dxt>, wb: int, row: int, y: int) -> Seq<u8> {
    Seq::new(
        (wb * 8) as nat,
        |q: int|
            {
                let d = dxts[row * wb + q / 8];
                let c = spec_block_color(d, y * 2 + (q % 8) / 4);
                if q % 4 == 0 {
                    c.red
                } else if q % 4 == 1 {
                    c.green
                } else if q % 4 == 2 {
                    c.blue
                } else {
                    c.alpha
                }
            },
    )
}

impl Texture {
    /// Decodes one texture: three geometry words, then its blocks — one
    /// block per sixteen size units, and at least one.
    pub fn from_bytes(b: &Vec<u8>, pos: usize) -> (r: Result<(Texture, usize), DecodeError>)
        requires
            pos <= b.len(),
        ensures
            match r {
                Ok((t, next)) => {
                    &&& pos + 12 <= b.len()
                    &&& t.width == le32_at(b@, pos as int) as usize
                    &&& t.height == le32_at(b@, pos + 4) as usize
                    &&& t.size == le32_at(b@, pos + 8) as usize
                    &&& t.dxts.inner@ == Seq::new(
                        vstd::math::max(1, t.size as int / 16) as nat,
                        |j: int| spec_dxt_at(b@, pos + 12 + j * 16),
                    )
                    &&& next == pos + 12 + vstd::math::max(1, t.size as int / 16) * 16
                    &&& next <= b.len()
                },
                Err(e) => e == DecodeError::TruncatedInput,
            },
    {
        if b.len() - pos < 12 {
            return Err(DecodeError::TruncatedInput);
        }
        let width = read_u32(b, pos) as usize;
        let height = read_u32(b, pos + 4) as usize;
        let size = read_u32(b, pos + 8) as usize;
        let blocks = size / 16;
        let min_dxts: usize = if blocks < 1 {
            1
        } else {
            blocks
        };
        if min_dxts > (b.len() - (pos + 12)) / 16 {
            return Err(DecodeError::TruncatedInput);
        }
        let dxts = DxtArray::from_bytes(b, pos + 12, min_dxts);
        Ok((Texture { width, height, size, dxts }, pos + 12 + min_dxts * 16))
    }

    /// The P7 header of the texture's unfolded image, at half the stored
    /// width and height.
    pub fn ppm_header(&self) -> (r: String)
        ensures
            r@ == spec_ppm_header(
                self.width as int / 2,
                self.height as int / 2,
                4,
                255,
                "RGB_ALPHA"@,
            ),
    {
        let p = Ppm::new(
            TuplType::RgbAlpha,
            self.width / 2,
            self.height / 2,
            255,
            crate::ppm::BufferType::Default,
        );
        p.get_header()
    }

    /// Unfolds the blocks into pixel rows: scanning the block grid row by
    /// row, each block row yields two scanlines of two pixels per block.
    pub fn to_ppm_bytes(&self) -> (r: Vec<u8>)
        requires
            self.width <= 0xffff,
            self.height <= 0xffff,
            (self.width / 4) * (self.height / 4) <= self.dxts.inner.len(),
        ensures
            r@.len() == (self.height as int / 4) * 2 * ((self.width as int / 4) * 8),
            forall|k: int|
                0 <= k < (self.height as int / 4) * 2 ==> #[trigger] r@.subrange(
                    k * ((self.width as int / 4) * 8),
                    (k + 1) * ((self.width as int / 4) * 8),
                ) == spec_scanline(self.dxts.inner@, self.width as int / 4, k / 2, k % 2),
    {
        broadcast use vstd::arithmetic::mul::lemma_mul_inequality, vstd::arithmetic::mul::lemma_mul_is_distributive_add_other_way;

        let wb = self.width / 4;
        let hb = self.height / 4;
        let line = wb * 8;
        let mut buffer: Vec<u8> = Vec::new();
        let mut k: usize = 0;
        while k < hb * 2
            invariant
                k <= hb * 2,
                wb == self.width / 4,
                hb == self.height / 4,
                wb <= 0x3fff,
                hb <= 0x3fff,
                line == wb * 8,
                wb * hb <= self.dxts.inner.len(),
                buffer@.len() == k * line,
                forall|j: int|
                    0 <= j < k ==> #[trigger] buffer@.subrange(j * (wb * 8), (j + 1) * (wb * 8))
                        == spec_scanline(self.dxts.inner@, wb as int, j / 2, j % 2),
            decreases hb * 2 - k,
        {
            let ghost before = buffer@;
            let row = k / 2;
            let y = k % 2;
            proof {
                assert(row < hb);
                vstd::arithmetic::mul::lemma_mul_inequality(row as int + 1, hb as int, wb as int);
                assert((row + 1) * wb <= hb * wb);
                assert(row * wb + wb == (row + 1) * wb) by (nonlinear_arith);
                assert(hb * wb == wb * hb) by (nonlinear_arith);
            }
            let mut col: usize = 0;
            while col < wb
                invariant
                    col <= wb,
                    wb <= 0x3fff,
                    row == k as int / 2,
                    y == k as int % 2,
                    y < 2,
                    row * wb + wb <= wb * hb,
                    wb * hb <= self.dxts.inner.len(),
                    buffer@.len() == before.len() + col * 8,
                    line == wb * 8,
                    buffer@.subrange(0, before.len() as int) == before,
                    buffer@.subrange(before.len() as int, buffer@.len() as int) == spec_scanline(
                        self.dxts.inner@,
                        wb as int,
                        row as int,
                        y as int,
                    ).take(col * 8),
                decreases wb - col,
            {
                proof {
                    assert(row * wb + col < row * wb + wb);
                }
                let d = self.dxts.inner[row * wb + col];
                let ca = if y == 0 {
                    d.c0
                } else {
                    d.c2
                };
                let cb = if y == 0 {
                    d.c1
                } else {
                    d.c3
                };
                buffer.push(ca.red);
                buffer.push(ca.green);
                buffer.push(ca.blue);
                buffer.push(ca.alpha);
                buffer.push(cb.red);
                buffer.push(cb.green);
                buffer.push(cb.blue);
                buffer.push(cb.alpha);
                proof {
                    let sl = spec_scanline(self.dxts.inner@, wb as int, row as int, y as int);
                    assert(col * 8 + 8 == (col + 1) * 8) by (nonlinear_arith);
                    assert((col + 1) * 8 <= wb as int * 8);
                    assert forall|q: int| col * 8 <= q < col * 8 + 8 implies sl[q] == buffer@[
                        before.len() + q
                    ] by {
                        assert(q / 8 == col as int) by (nonlinear_arith)
                            requires
                                col * 8 <= q < col * 8 + 8,
                        ;
                        assert(spec_block_color(
                            self.dxts.inner@[row as int * wb + col],
                            y as int * 2 + (q % 8) / 4,
                        ) == if (q % 8) / 4 == 0 {
                            ca
                        } else {
                            cb
                        });
                    }
                    assert(buffer@.subrange(0, before.len() as int) =~= before);
                    assert(buffer@.subrange(before.len() as int, buffer@.len() as int) =~= sl.take(
                        (col + 1) * 8,
                    ));
                }
                col += 1;
            }
            proof {
                let sl = spec_scanline(self.dxts.inner@, wb as int, row as int, y as int);
                let w8 = wb as int * 8;
                assert(sl.take(w8) =~= sl);
                assert(buffer@.len() == k * w8 + w8);
                assert((k + 1) * w8 == k * w8 + w8) by (nonlinear_arith);
                assert forall|j: int| 0 <= j < k + 1 implies #[trigger] buffer@.subrange(
                    j * w8,
                    (j + 1) * w8,
                ) == spec_scanline(self.dxts.inner@, wb as int, j / 2, j % 2) by {
                    assert(0 <= j * w8) by (nonlinear_arith)
                        requires
                            j >= 0,
                            w8 >= 0,
                    ;
                    vstd::arithmetic::mul::lemma_mul_inequality(j + 1, k as int + 1, w8);
                    assert((j + 1) * w8 <= (k + 1) * w8);
                    if j < k {
                        assert(j * w8 + w8 == (j + 1) * w8) by (nonlinear_arith);
                        vstd::arithmetic::mul::lemma_mul_inequality(j + 1, k as int, w8);
                        assert((j + 1) * w8 <= k * w8);
                        assert(buffer@.subrange(j * w8, (j + 1) * w8) =~= before.subrange(
                            j * w8,
                            (j + 1) * w8,
                        ));
                    } else {
                        assert(j == k);
                        assert(buffer@.subrange(j * w8, (j + 1) * w8) =~= buffer@.subrange(
                            before.len() as int,
                            buffer@.len() as int,
                        ));
                    }
                }
            }
            k += 1;
        }
        proof {
            assert(buffer@.len() == (hb as int * 2) * (wb as int * 8)) by (nonlinear_arith)
                requires
                    buffer@.len() == (hb * 2) * line,
                    line == wb * 8,
            ;
        }
        buffer
    }
}

/// The fixed prelude of a texture bank.
#[derive(Clone, Copy, Debug, Default, PartialEq, Eq, Structural)]
pub struct Header {
    pub magic: u32,
    pub bank_id: u32,
    pub reserved: u32,
    pub num_of_textures: usize,
    pub max_width: u32,
    pub max_height: u32,
}

/// A whole texture bank: its prelude and its textures, back to back.
#[derive(Clone, Debug, Default, PartialEq, Eq)]
pub struct DxtBank {
    pub header: Header,
    pub textures: Vec<Texture>,
}

impl Header {
    /// Decodes the 24-byte bank prelude.
    pub fn from_bytes(b: &Vec<u8>, pos: usize) -> (r: Result<Header, DecodeError>)
        requires
            pos <= b.len(),
        ensures
            match r {
                Ok(h) => {
                    &&& pos + 24 <= b.len()
                    &&& h.magic == le32_at(b@, pos as int)
                    &&& h.bank_id == le32_at(b@, pos + 4)
                    &&& h.reserved == le32_at(b@, pos + 8)
                    &&& h.num_of_textures == le32_at(b@, pos + 12) as usize
                    &&& h.max_width == le32_at(b@, pos + 16)
                    &&& h.max_height == le32_at(b@, pos + 20)
                },
                Err(e) => e == DecodeError::TruncatedInput && pos + 24 > b.len(),
            },
    {
        if b.len() - pos < 24 {
            return Err(DecodeError::TruncatedInput);
        }
        Ok(
            Header {
                magic: read_u32(b, pos),
                bank_id: read_u32(b, pos + 4),
                reserved: read_u32(b, pos + 8),
                num_of_textures: read_u32(b, pos + 12) as usize,
                max_width: read_u32(b, pos + 16),
                max_height: read_u32(b, pos + 20),
            },
        )
    }
}

impl DxtBank {
    /// Decodes the bank prelude and then each texture in turn.
    pub fn from_bytes(b: &Vec<u8>) -> (r: Result<DxtBank, DecodeError>)
        ensures
            match r {
                Ok(bank) => bank.textures@.len() == bank.header.num_of_textures,
                Err(e) => e == DecodeError::TruncatedInput,
            },
    {
        let header = match Header::from_bytes(b, 0) {
            Ok(h) => h,
            Err(e) => {
                return Err(e);
            },
        };
        let mut textures: Vec<Texture> = Vec::new();
        let mut pos: usize = 24;
        let mut i: usize = 0;
        while i < header.num_of_textures
            invariant
                i <= header.num_of_textures,
                pos <= b.len(),
                textures@.len() == i,
            decreases header.num_of_textures - i,
        {
            let (t, next) = match Texture::from_bytes(b, pos) {
                Ok(v) => v,
                Err(e) => {
                    return Err(e);
                },
            };
            textures.push(t);
            pos = next;
            i += 1;
        }
        Ok(DxtBank { header, textures })
    }
}

} // verus!
