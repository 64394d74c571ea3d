//! Palette colors: RGBA quads decoded from several packed byte layouts,
//! and bulk operations over arrays of them.
use vstd::prelude::*;

verus! {

/// Names one of the four channels of an RGBA color.
#[derive(Clone, Copy, Debug, PartialEq, Eq, Structural)]
pub enum Color {
    R,
    G,
    B,
    A,
}

/// The tuple slot a channel name stands for.
pub open spec fn spec_color_index(c: Color) -> int {
    match c {
        Color::R => 0,
        Color::G => 1,
        Color::B => 2,
        Color::A => 3,
    }
}

impl Color {
    /// The tuple slot of this channel.
    pub fn index(&self) -> (r: usize)
        ensures
            r == spec_color_index(*self),
    {
        match self {
            Color::R => 0,
            Color::G => 1,
            Color::B => 2,
            Color::A => 3,
        }
    }
}

/// One color: four 8-bit channels.
#[derive(Clone, Copy, Debug, Default, PartialEq, Eq, Structural)]
pub struct Rgba {
    pub r: u8,
    pub g: u8,
    pub b: u8,
    pub a: u8,
}

/// The value of one named channel.
pub open spec fn spec_channel(c: Rgba, color: Color) -> u8 {
    match color {
        Color::R => c.r,
        Color::G => c.g,
        Color::B => c.b,
        Color::A => c.a,
    }
}

/// One channel scaled by an integer factor, saturating at 255.
pub open spec fn spec_scale_channel(c: u8, factor: u32) -> u8 {
    if factor * c > 255 {
        255u8
    } else {
        (factor * c) as u8
    }
}

/// The color stored at `b[i..i+4]` as one byte per channel.
pub open spec fn spec_rgba_at(b: Seq<u8>, i: int) -> Rgba {
    Rgba { r: b[i], g: b[i + 1], b: b[i + 2], a: b[i + 3] }
}

/// The color stored at `b[i..i+3]` as three channel bytes and full alpha.
pub open spec fn spec_rgb_at(b: Seq<u8>, i: int) -> Rgba {
    Rgba { r: b[i], g: b[i + 1], b: b[i + 2], a: 0xff }
}

/// The gray color stored at `b[i]`: one byte fanned out to all channels.
pub open spec fn spec_gray_at(b: Seq<u8>, i: int) -> Rgba {
    Rgba { r: b[i], g: b[i], b: b[i], a: 0xff }
}

/// The color stored at `b[i]` as four 2-bit fields.
pub open spec fn spec_rrgg_bbaa_at(b: Seq<u8>, i: int) -> Rgba {
    Rgba {
        r: (b[i] & 0xc0) >> 6u8,
        g: (b[i] & 0x30) >> 4u8,
        b: (b[i] & 0x0c) >> 2u8,
        a: b[i] & 0x03,
    }
}

/// The color stored at `b[i..i+2]` as a little-endian 5-6-5 triple, red in
/// the high bits of the first byte.
pub open spec fn spec_rgb565_at(b: Seq<u8>, i: int) -> Rgba {
    Rgba {
        r: b[i] >> 3u8,
        g: (((b[i] & 0x07) << 3u8) + (b[i + 1] >> 5u8)) as u8,
        b: b[i + 1] & 0x1f,
        a: 0xff,
    }
}

/// The color stored at `b[i..i+2]` as a 5-6-5 triple with blue first.
pub open spec fn spec_bgr565_at(b: Seq<u8>, i: int) -> Rgba {
    Rgba {
        r: b[i + 1] & 0x1f,
        g: ((b[i] & 0x07) + (b[i + 1] >> 5u8)) as u8,
        b: b[i] >> 3u8,
        a: 0xff,
    }
}

impl Rgba {
    /// Decodes one byte per channel.
    pub fn from_bytes_rgba(b: &Vec<u8>, pos: usize) -> (r: Rgba)
        requires
            pos + 4 <= b.len(),
        ensures
            r == spec_rgba_at(b@, pos as int),
    {
        Rgba { r: b[pos], g: b[pos + 1], b: b[pos + 2], a: b[pos + 3] }
    }

    /// Decodes three channel bytes; alpha is full.
    pub fn from_bytes_rgb(b: &Vec<u8>, pos: usize) -> (r: Rgba)
        requires
            pos + 3 <= b.len(),
        ensures
            r == spec_rgb_at(b@, pos as int),
    {
        Rgba { r: b[pos], g: b[pos + 1], b: b[pos + 2], a: 0xff }
    }

    /// Decodes one gray byte into all three channels; alpha is full.
    pub fn from_bytes_u8(b: &Vec<u8>, pos: usize) -> (r: Rgba)
        requires
            pos + 1 <= b.len(),
        ensures
            r == spec_gray_at(b@, pos as int),
    {
        let v = b[pos];
        Rgba { r: v, g: v, b: v, a: 0xff }
    }

    /// Decodes one byte holding four 2-bit fields.
    pub fn from_bytes_rrgg_bbaa(b: &Vec<u8>, pos: usize) -> (r: Rgba)
        requires
            pos + 1 <= b.len(),
        ensures
            r == spec_rrgg_bbaa_at(b@, pos as int),
    {
        let v = b[pos];
        Rgba { r: (v & 0xc0) >> 6, g: (v & 0x30) >> 4, b: (v & 0x0c) >> 2, a: v & 0x03 }
    }

    /// Decodes a 5-6-5 packed pair, red in the first byte's high bits.
    pub fn from_bytes_rgb565(b: &Vec<u8>, pos: usize) -> (r: Rgba)
        requires
            pos + 2 <= b.len(),
        ensures
            r == spec_rgb565_at(b@, pos as int),
    {
        let b0 = b[pos];
        let b1 = b[pos + 1];
        let g = ((b0 & 0x07) << 3) as u16 + (b1 >> 5) as u16;
        proof {
            assert(((b0 & 0x07) << 3u8) as u16 + ((b1 >> 5u8) as u16) <= 255) by (bit_vector);
            assert((((b0 & 0x07) << 3u8) as u16 + ((b1 >> 5u8) as u16)) as u8 == (((b0 & 0x07)
                << 3u8) + (b1 >> 5u8)) as u8) by (bit_vector);
        }
        Rgba { r: b0 >> 3, g: g as u8, b: b1 & 0x1f, a: 0xff }
    }

    /// Decodes a 5-6-5 packed pair with blue first.
    pub fn from_bytes_bgr565(b: &Vec<u8>, pos: usize) -> (r: Rgba)
        requires
            pos + 2 <= b.len(),
        ensures
            r == spec_bgr565_at(b@, pos as int),
    {
        let b0 = b[pos];
        let b1 = b[pos + 1];
        let g = (b0 & 0x07) as u16 + (b1 >> 5) as u16;
        proof {
            assert((b0 & 0x07) as u16 + ((b1 >> 5u8) as u16) <= 255) by (bit_vector);
            assert(((b0 & 0x07) as u16 + ((b1 >> 5u8) as u16)) as u8 == ((b0 & 0x07) + (b1
                >> 5u8)) as u8) by (bit_vector);
        }
        Rgba { r: b1 & 0x1f, g: g as u8, b: b0 >> 3, a: 0xff }
    }

    /// The same color with its alpha forced to full.
    pub fn to_rbg(&self) -> (r: Self)
        ensures
            r == (Rgba { a: 0xffu8, ..*self }),
    {
        Rgba { r: self.r, g: self.g, b: self.b, a: 0xff }
    }

    /// The channels as a four-slot tuple, in R, G, B, A order.
    pub fn to_tuple(&self) -> (r: [u8; 4])
        ensures
            r@ == seq![self.r, self.g, self.b, self.a],
    {
        let t = [self.r, self.g, self.b, self.a];
        proof {
            assert(t@ =~= seq![self.r, self.g, self.b, self.a]);
        }
        t
    }

    /// Rebuilds a color from a four-slot tuple.
    pub fn from_tuple(t: [u8; 4]) -> (r: Self)
        ensures
            r == (Rgba { r: t@[0], g: t@[1], b: t@[2], a: t@[3] }),
    {
        Rgba { r: t[0], g: t[1], b: t[2], a: t[3] }
    }

    /// The channels as a vector, in R, G, B, A order.
    pub fn as_vec(&self) -> (r: Vec<u8>)
        ensures
            r@ == seq![self.r, self.g, self.b, self.a],
    {
        let mut v: Vec<u8> = Vec::new();
        v.push(self.r);
        v.push(self.g);
        v.push(self.b);
        v.push(self.a);
        proof {
            assert(v@ =~= seq![self.r, self.g, self.b, self.a]);
        }
        v
    }

    /// Exchanges two named channels.
    pub fn swap(&self, x: &Color, y: &Color) -> (r: Self)
        ensures
            spec_channel(r, *x) == spec_channel(*self, *y),
            spec_channel(r, *y) == spec_channel(*self, *x),
            forall|c: Color|
                c != *x && c != *y ==> #[trigger] spec_channel(r, c) == spec_channel(*self, c),
    {
        let mut t = self.to_tuple();
        let tx = t[x.index()];
        let ty = t[y.index()];
        t[y.index()] = tx;
        t[x.index()] = ty;
        Rgba::from_tuple(t)
    }

    /// Every channel multiplied by `factor`, saturating at 255.
    pub fn scale(&self, factor: u32) -> (r: Rgba)
        requires
            factor <= 0xffffffffu32 / 255,
        ensures
            r.r == spec_scale_channel(self.r, factor),
            r.g == spec_scale_channel(self.g, factor),
            r.b == spec_scale_channel(self.b, factor),
            r.a == spec_scale_channel(self.a, factor),
    {
        let r = scale_channel(self.r, factor);
        let g = scale_channel(self.g, factor);
        let b = scale_channel(self.b, factor);
        let a = scale_channel(self.a, factor);
        Rgba { r, g, b, a }
    }

    /// Zeroes each channel whose flag is false.
    pub fn strip(&self, r: bool, g: bool, b: bool, a: bool) -> (res: Self)
        ensures
            res.r == if r {
                self.r
            } else {
                0u8
            },
            res.g == if g {
                self.g
            } else {
                0u8
            },
            res.b == if b {
                self.b
            } else {
                0u8
            },
            res.a == if a {
                self.a
            } else {
                0u8
            },
    {
        let mut tmp = *self;
        if r == false {
            tmp.r = 0;
        }
        if g == false {
            tmp.g = 0;
        }
        if b == false {
            tmp.b = 0;
        }
        if a == false {
            tmp.a = 0;
        }
        tmp
    }

    /// The value of one named channel.
    pub fn to_byte(&self, color: &Color) -> (r: u8)
        ensures
            r == spec_channel(*self, *color),
    {
        let index = color.index();
        let t = self.to_tuple();
        t[index]
    }
}

/// One channel multiplied by `factor`, saturating at 255.
fn scale_channel(c: u8, factor: u32) -> (r: u8)
    requires
        factor <= 0xffffffffu32 / 255,
    ensures
        r == spec_scale_channel(c, factor),
{
    proof {
        assert(factor * c <= 16843009 * 255) by (nonlinear_arith)
            requires
                factor <= 16843009,
                c <= 255,
        ;
    }
    let v = factor * (c as u32);
    if v > 255 {
        255
    } else {
        v as u8
    }
}

/// A run of colors, for palettes and pixel rows.
#[derive(Clone, Debug, Default, PartialEq, Eq)]
pub struct RgbaArray {
    pub inner: Vec<Rgba>,
}

impl RgbaArray {
    /// The empty run.
    pub fn new() -> (r: Self)
        ensures
            r.inner@ == Seq::<Rgba>::empty(),
    {
        proof {
            assert(Seq::<Rgba>::empty() =~= Seq::<Rgba>::empty());
        }
        RgbaArray { inner: Vec::new() }
    }

    /// Wraps an existing run of colors.
    pub fn from(inner: Vec<Rgba>) -> (r: Self)
        ensures
            r.inner == inner,
    {
        RgbaArray { inner }
    }

    /// Every color scaled by `factor`, saturating per channel.
    pub fn scale(&self, factor: u32) -> (r: RgbaArray)
        requires
            factor <= 0xffffffffu32 / 255,
        ensures
            r.inner@.len() == self.inner@.len(),
            forall|i: int|
                0 <= i < self.inner@.len() ==> #[trigger] r.inner@[i] == (Rgba {
                    r: spec_scale_channel(self.inner@[i].r, factor),
                    g: spec_scale_channel(self.inner@[i].g, factor),
                    b: spec_scale_channel(self.inner@[i].b, factor),
                    a: spec_scale_channel(self.inner@[i].a, factor),
                }),
    {
        let mut inner: Vec<Rgba> = Vec::new();
        let mut i: usize = 0;
        while i < self.inner.len()
            invariant
                i <= self.inner@.len(),
                factor <= 0xffffffffu32 / 255,
                inner@.len() == i,
                forall|j: int|
                    0 <= j < i ==> #[trigger] inner@[j] == (Rgba {
                        r: spec_scale_channel(self.inner@[j].r, factor),
                        g: spec_scale_channel(self.inner@[j].g, factor),
                        b: spec_scale_channel(self.inner@[j].b, factor),
                        a: spec_scale_channel(self.inner@[j].a, factor),
                    }),
            decreases self.inner@.len() - i,
        {
            inner.push(self.inner[i].scale(factor));
            i += 1;
        }
        RgbaArray { inner }
    }

    /// Decodes `num` colors of one byte per channel.
    pub fn from_bytes_rgba(b: &Vec<u8>, pos: usize, num: usize) -> (r: Self)
        requires
            pos + num * 4 <= b.len(),
        ensures
            r.inner@ == Seq::new(num as nat, |j: int| spec_rgba_at(b@, pos + j * 4)),
    {
        let mut inner: Vec<Rgba> = Vec::new();
        let mut i: usize = 0;
        while i < num
            invariant
                i <= num,
                pos + num * 4 <= b.len(),
                inner@ == Seq::new(i as nat, |j: int| spec_rgba_at(b@, pos + j * 4)),
            decreases num - i,
        {
            inner.push(Rgba::from_bytes_rgba(b, pos + i * 4));
            assert(inner@ =~= Seq::new((i + 1) as nat, |j: int| spec_rgba_at(b@, pos + j * 4)));
            i += 1;
        }
        RgbaArray { inner }
    }

    /// Decodes `num` colors of three bytes each, alpha full.
    pub fn from_bytes_rgb(b: &Vec<u8>, pos: usize, num: usize) -> (r: Self)
        requires
            pos + num * 3 <= b.len(),
        ensures
            r.inner@ == Seq::new(num as nat, |j: int| spec_rgb_at(b@, pos + j * 3)),
    {
        let mut inner: Vec<Rgba> = Vec::new();
        let mut i: usize = 0;
        while i < num
            invariant
                i <= num,
                pos + num * 3 <= b.len(),
                inner@ == Seq::new(i as nat, |j: int| spec_rgb_at(b@, pos + j * 3)),
            decreases num - i,
        {
            inner.push(Rgba::from_bytes_rgb(b, pos + i * 3));
            assert(inner@ =~= Seq::new((i + 1) as nat, |j: int| spec_rgb_at(b@, pos + j * 3)));
            i += 1;
        }
        RgbaArray { inner }
    }

    /// Decodes `num` gray colors of one byte each.
    pub fn from_bytes_u8(b: &Vec<u8>, pos: usize, num: usize) -> (r: Self)
        requires
            pos + num <= b.len(),
        ensures
            r.inner@ == Seq::new(num as nat, |j: int| spec_gray_at(b@, pos + j)),
    {
        let mut inner: Vec<Rgba> = Vec::new();
        let mut i: usize = 0;
        while i < num
            invariant
                i <= num,
                pos + num <= b.len(),
                inner@ == Seq::new(i as nat, |j: int| spec_gray_at(b@, pos + j)),
            decreases num - i,
        {
            inner.push(Rgba::from_bytes_u8(b, pos + i));
            assert(inner@ =~= Seq::new((i + 1) as nat, |j: int| spec_gray_at(b@, pos + j)));
            i += 1;
        }
        RgbaArray { inner }
    }

    /// Decodes `num` colors of four 2-bit fields each.
    pub fn from_bytes_rrgg_bbaa(b: &Vec<u8>, pos: usize, num: usize) -> (r: Self)
        requires
            pos + num <= b.len(),
        ensures
            r.inner@ == Seq::new(num as nat, |j: int| spec_rrgg_bbaa_at(b@, pos + j)),
    {
        let mut inner: Vec<Rgba> = Vec::new();
        let mut i: usize = 0;
        while i < num
            invariant
                i <= num,
                pos + num <= b.len(),
                inner@ == Seq::new(i as nat, |j: int| spec_rrgg_bbaa_at(b@, pos + j)),
            decreases num - i,
        {
            inner.push(Rgba::from_bytes_rrgg_bbaa(b, pos + i));
            assert(inner@ =~= Seq::new((i + 1) as nat, |j: int| spec_rrgg_bbaa_at(b@, pos + j)));
            i += 1;
        }
        RgbaArray { inner }
    }

    /// Decodes `num` 5-6-5 colors, red first.
    pub fn from_bytes_rgb565(b: &Vec<u8>, pos: usize, num: usize) -> (r: Self)
        requires
            pos + num * 2 <= b.len(),
        ensures
            r.inner@ == Seq::new(num as nat, |j: int| spec_rgb565_at(b@, pos + j * 2)),
    {
        let mut inner: Vec<Rgba> = Vec::new();
        let mut i: usize = 0;
        while i < num
            invariant
                i <= num,
                pos + num * 2 <= b.len(),
                inner@ == Seq::new(i as nat, |j: int| spec_rgb565_at(b@, pos + j * 2)),
            decreases num - i,
        {
            inner.push(Rgba::from_bytes_rgb565(b, pos + i * 2));
            assert(inner@ =~= Seq::new((i + 1) as nat, |j: int| spec_rgb565_at(b@, pos + j * 2)));
            i += 1;
        }
        RgbaArray { inner }
    }

    /// Decodes `num` 5-6-5 colors, blue first.
    pub fn from_bytes_bgr565(b: &Vec<u8>, pos: usize, num: usize) -> (r: Self)
        requires
            pos + num * 2 <= b.len(),
        ensures
            r.inner@ == Seq::new(num as nat, |j: int| spec_bgr565_at(b@, pos + j * 2)),
    {
        let mut inner: Vec<Rgba> = Vec::new();
        let mut i: usize = 0;
        while i < num
            invariant
                i <= num,
                pos + num * 2 <= b.len(),
                inner@ == Seq::new(i as nat, |j: int| spec_bgr565_at(b@, pos + j * 2)),
            decreases num - i,
        {
            inner.push(Rgba::from_bytes_bgr565(b, pos + i * 2));
            assert(inner@ =~= Seq::new((i + 1) as nat, |j: int| spec_bgr565_at(b@, pos + j * 2)));
            i += 1;
        }
        RgbaArray { inner }
    }

    /// Every color with its alpha forced to full.
    pub fn to_rgb(&self) -> (r: Self)
        ensures
            r.inner@.len() == self.inner@.len(),
            forall|i: int|
                0 <= i < self.inner@.len() ==> #[trigger] r.inner@[i] == (Rgba {
                    a: 0xffu8,
                    ..self.inner@[i]
                }),
    {
        let mut inner: Vec<Rgba> = Vec::new();
        let mut i: usize = 0;
        while i < self.inner.len()
            invariant
                i <= self.inner@.len(),
                inner@.len() == i,
                forall|j: int|
                    0 <= j < i ==> #[trigger] inner@[j] == (Rgba { a: 0xffu8, ..self.inner@[j] }),
            decreases self.inner@.len() - i,
        {
            inner.push(self.inner[i].to_rbg());
            i += 1;
        }
        RgbaArray { inner }
    }

    /// The colors flattened to bytes, four per color in R, G, B, A order.
    pub fn to_bytes(&self) -> (r: Vec<u8>)
        ensures
            r@.len() == 4 * self.inner@.len(),
            forall|i: int|
                0 <= i < self.inner@.len() ==> {
                    &&& r@[4 * i] == self.inner@[i].r
                    &&& r@[4 * i + 1] == self.inner@[i].g
                    &&& r@[4 * i + 2] == self.inner@[i].b
                    &&& r@[4 * i + 3] == self.inner@[i].a
                },
    {
        let mut bytes: Vec<u8> = Vec::new();
        let mut i: usize = 0;
        while i < self.inner.len()
            invariant
                i <= self.inner@.len(),
                bytes@.len() == 4 * i,
                forall|j: int|
                    0 <= j < i ==> {
                        &&& bytes@[4 * j] == self.inner@[j].r
                        &&& bytes@[4 * j + 1] == self.inner@[j].g
                        &&& bytes@[4 * j + 2] == self.inner@[j].b
                        &&& bytes@[4 * j + 3] == self.inner@[j].a
                    },
            decreases self.inner@.len() - i,
        {
            let c = self.inner[i];
            bytes.push(c.r);
            bytes.push(c.g);
            bytes.push(c.b);
            bytes.push(c.a);
            i += 1;
        }
        bytes
    }

    /// One named channel of every color, in order.
    pub fn to_byte(&self, color: &Color) -> (r: Vec<u8>)
        ensures
            r@.len() == self.inner@.len(),
            forall|i: int|
                0 <= i < self.inner@.len() ==> #[trigger] r@[i] == spec_channel(
                    self.inner@[i],
                    *color,
                ),
    {
        let mut byte_array: Vec<u8> = Vec::new();
        let mut i: usize = 0;
        while i < self.inner.len()
            invariant
                i <= self.inner@.len(),
                byte_array@.len() == i,
                forall|j: int|
                    0 <= j < i ==> #[trigger] byte_array@[j] == spec_channel(
                        self.inner@[j],
                        *color,
                    ),
            decreases self.inner@.len() - i,
        {
            byte_array.push(self.inner[i].to_byte(color));
            i += 1;
        }
        byte_array
    }

    /// Every color with the two named channels exchanged.
    pub fn swap(&self, x: &Color, y: &Color) -> (r: Self)
        ensures
            r.inner@.len() == self.inner@.len(),
            forall|i: int|
                0 <= i < self.inner@.len() ==> {
                    &&& spec_channel(#[trigger] r.inner@[i], *x) == spec_channel(
                        self.inner@[i],
                        *y,
                    )
                    &&& spec_channel(r.inner@[i], *y) == spec_channel(self.inner@[i], *x)
                    &&& forall|c: Color|
                        c != *x && c != *y ==> #[trigger] spec_channel(r.inner@[i], c)
                            == spec_channel(self.inner@[i], c)
                },
    {
        let mut inner: Vec<Rgba> = Vec::new();
        let mut i: usize = 0;
        while i < self.inner.len()
            invariant
                i <= self.inner@.len(),
                inner@.len() == i,
                forall|j: int|
                    0 <= j < i ==> {
                        &&& spec_channel(#[trigger] inner@[j], *x) == spec_channel(
                            self.inner@[j],
                            *y,
                        )
                        &&& spec_channel(inner@[j], *y) == spec_channel(self.inner@[j], *x)
                        &&& forall|c: Color|
                            c != *x && c != *y ==> #[trigger] spec_channel(inner@[j], c)
                                == spec_channel(self.inner@[j], c)
                    },
            decreases self.inner@.len() - i,
        {
            inner.push(self.inner[i].swap(x, y));
            i += 1;
        }
        RgbaArray { inner }
    }

    /// Every color with the unflagged channels zeroed.
    pub fn strip(&self, r: bool, g: bool, b: bool, a: bool) -> (res: Self)
        ensures
            res.inner@.len() == self.inner@.len(),
            forall|i: int|
                0 <= i < self.inner@.len() ==> #[trigger] res.inner@[i] == (Rgba {
                    r: if r {
                        self.inner@[i].r
                    } else {
                        0u8
                    },
                    g: if g {
                        self.inner@[i].g
                    } else {
                        0u8
                    },
                    b: if b {
                        self.inner@[i].b
                    } else {
                        0u8
                    },
                    a: if a {
                        self.inner@[i].a
                    } else {
                        0u8
                    },
                }),
    {
        let mut inner: Vec<Rgba> = Vec::new();
        let mut i: usize = 0;
        while i < self.inner.len()
            invariant
                i <= self.inner@.len(),
                inner@.len() == i,
                forall|j: int|
                    0 <= j < i ==> #[trigger] inner@[j] == (Rgba {
                        r: if r {
                            self.inner@[j].r
                        } else {
                            0u8
                        },
                        g: if g {
                            self.inner@[j].g
                        } else {
                            0u8
                        },
                        b: if b {
                            self.inner@[j].b
                        } else {
                            0u8
                        },
                        a: if a {
                            self.inner@[j].a
                        } else {
                            0u8
                        },
                    }),
            decreases self.inner@.len() - i,
        {
            inner.push(self.inner[i].strip(r, g, b, a));
            i += 1;
        }
        RgbaArray { inner }
    }

    /// Appends to `mx` each color's named channel that exceeds the last
    /// entry `mx` held on entry, in order.
    pub fn set_max<'a>(&'a self, mx: &mut Vec<u8>, color: &Color) -> (r: &'a Self)
        requires
            old(mx).len() > 0,
        ensures
            r == self,
            final(mx)@ == old(mx)@ + Seq::new(self.inner@.len(), |i: int| spec_channel(self.inner@[i], *color)).filter(
                |c: u8| c > old(mx)@[old(mx)@.len() - 1],
            ),
    {
        let last = mx[mx.len() - 1];
        let ghost channels = Seq::new(
            self.inner@.len(),
            |i: int| spec_channel(self.inner@[i], *color),
        );
        let ghost pred = |c: u8| c > last;
        let ghost mx0 = mx@;
        proof {
            assert(channels.take(0) =~= Seq::<u8>::empty());
            reveal(Seq::filter);
            assert(mx@ =~= mx0 + channels.take(0).filter(pred));
        }
        let mut i: usize = 0;
        while i < self.inner.len()
            invariant
                i <= self.inner@.len(),
                last == mx0[mx0.len() - 1],
                mx0.len() > 0,
                channels == Seq::new(
                    self.inner@.len(),
                    |k: int| spec_channel(self.inner@[k], *color),
                ),
                pred == (|c: u8| c > last),
                mx@ == mx0 + channels.take(i as int).filter(pred),
            decreases self.inner@.len() - i,
        {
            let col: u8 = self.inner[i].to_byte(color);
            proof {
                reveal(Seq::filter);
                assert(channels.take(i as int + 1).drop_last() =~= channels.take(i as int));
                assert(channels.take(i as int + 1).last() == col);
            }
            if col > last {
                mx.push(col);
                proof {
                    assert(mx@ =~= mx0 + channels.take(i as int + 1).filter(pred));
                }
            } else {
                proof {
                    assert(mx@ =~= mx0 + channels.take(i as int + 1).filter(pred));
                }
            }
            i += 1;
        }
        proof {
            assert(channels.take(self.inner@.len() as int) =~= channels);
        }
        self
    }
}

} // verus!
