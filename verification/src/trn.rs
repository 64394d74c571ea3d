//! The terrain file's prelude and its palette-indexed textures.
use crate::bytes::{le32_at, read_bytes, read_u32, DecodeError};
use crate::color::{spec_rgba_at, Rgba, RgbaArray};
use crate::ppm::{BufferType, Ppm, TuplType};
use vstd::prelude::*;

verus! {

/// The game releases whose terrain files are laid out alike.
#[derive(Clone, Copy, Debug, Default, PartialEq, Eq, Structural)]
pub enum Release {
    #[default]
    Proto,
    Xbox,
}

/// The track family a terrain file belongs to.
#[derive(Clone, Copy, Debug, Default, PartialEq, Eq, Structural)]
pub enum Track {
    #[default]
    Free,
    Nat,
    Sx,
}

/// The event style a track is built for.
#[derive(Clone, Copy, Debug, PartialEq, Eq, Structural)]
pub enum TrackType {
    Supercross,
    National,
    Freestyle,
}

/// The terrain file's prelude: magic strings, the 256-entry color table,
/// and the offset tables that locate the block and texture sections.
#[derive(Clone, Debug, Default, PartialEq, Eq)]
pub struct Header {
    pub pln: Vec<u8>,
    pub seven_ps2: Vec<u8>,
    pub psxpal8: Vec<u8>,
    pub one: u32,
    pub colortable: RgbaArray,
    pub float: u32,
    pub two: u32,
    pub vertices_offset: usize,
    pub num_7c31_offsets: usize,
    pub num_7c31_offsets_2: usize,
    pub offset_table: Vec<usize>,
    pub num_of_textures: u32,
    pub num_of_textures_2: u32,
    pub texture_offsets: Vec<usize>,
}

/// Decodes `n` 32-bit words as offsets.
fn read_offsets(b: &Vec<u8>, pos: usize, n: usize) -> (r: Vec<usize>)
    requires
        pos + n * 4 <= b.len(),
    ensures
        r@ == Seq::new(n as nat, |j: int| le32_at(b@, pos + j * 4) as usize),
{
    let mut out: Vec<usize> = Vec::new();
    let mut i: usize = 0;
    while i < n
        invariant
            i <= n,
            pos + n * 4 <= b.len(),
            out@ == Seq::new(i as nat, |j: int| le32_at(b@, pos + j * 4) as usize),
        decreases n - i,
    {
        out.push(read_u32(b, pos + i * 4) as usize);
        assert(out@ =~= Seq::new(
            (i + 1) as nat,
            |j: int| le32_at(b@, pos as int + j * 4) as usize,
        ));
        i += 1;
    }
    out
}

impl Header {
    /// Decodes the prelude from the front of the file: the three magic
    /// strings, one word, the 256-color table, a scale value kept as its
    /// bit pattern, two words, the block-offset table with its two counts,
    /// and the texture-offset table with its two counts.  The layout is
    /// the same for every known release and track family.
    pub fn parse(release: Release, track: Track, input: &Vec<u8>) -> (r: Result<
        Header,
        DecodeError,
    >)
        ensures
            match r {
                Ok(h) => {
                    &&& h.pln@ == input@.subrange(0, 4)
                    &&& h.seven_ps2@ == input@.subrange(4, 9)
                    &&& h.psxpal8@ == input@.subrange(9, 41)
                    &&& h.one == le32_at(input@, 41)
                    &&& h.colortable.inner@ == Seq::new(
                        0x100,
                        |j: int| spec_rgba_at(input@, 45 + j * 4),
                    )
                    &&& h.float == le32_at(input@, 1069)
                    &&& h.two == le32_at(input@, 1073)
                    &&& h.vertices_offset == le32_at(input@, 1077) as usize
                    &&& h.num_7c31_offsets == le32_at(input@, 1081) as usize
                    &&& h.num_7c31_offsets_2 == le32_at(input@, 1085) as usize
                    &&& h.offset_table@ == Seq::new(
                        h.num_7c31_offsets as nat,
                        |j: int| le32_at(input@, 1089 + j * 4) as usize,
                    )
                    &&& h.num_of_textures == le32_at(
                        input@,
                        1089 + h.num_7c31_offsets * 4,
                    )
                    &&& h.num_of_textures_2 == le32_at(
                        input@,
                        1093 + h.num_7c31_offsets * 4,
                    )
                    &&& h.texture_offsets@ == Seq::new(
                        h.num_of_textures as nat,
                        |j: int| le32_at(
                            input@,
                            1097 + h.num_7c31_offsets * 4 + j * 4,
                        ) as usize,
                    )
                },
                Err(e) => e == DecodeError::TruncatedInput,
            },
    {
        let _ = release;
        let _ = track;
        if input.len() < 1089 {
            return Err(DecodeError::TruncatedInput);
        }
        let pln = read_bytes(input, 0, 4);
        let seven_ps2 = read_bytes(input, 4, 5);
        let psxpal8 = read_bytes(input, 9, 32);
        let one = read_u32(input, 41);
        let colortable = RgbaArray::from_bytes_rgba(input, 45, 0x100);
        let float = read_u32(input, 1069);
        let two = read_u32(input, 1073);
        let vertices_offset = read_u32(input, 1077) as usize;
        let num_7c31_offsets = read_u32(input, 1081) as usize;
        let num_7c31_offsets_2 = read_u32(input, 1085) as usize;
        if num_7c31_offsets > (input.len() - 1089) / 4 {
            return Err(DecodeError::TruncatedInput);
        }
        let offset_table = read_offsets(input, 1089, num_7c31_offsets);
        let after_table = 1089 + num_7c31_offsets * 4;
        if input.len() - after_table < 8 {
            return Err(DecodeError::TruncatedInput);
        }
        let num_of_textures = read_u32(input, after_table);
        let num_of_textures_2 = read_u32(input, after_table + 4);
        if num_of_textures as usize > (input.len() - (after_table + 8)) / 4 {
            return Err(DecodeError::TruncatedInput);
        }
        let texture_offsets = read_offsets(input, after_table + 8, num_of_textures as usize);
        Ok(
            Header {
                pln,
                seven_ps2,
                psxpal8,
                one,
                colortable,
                float,
                two,
                vertices_offset,
                num_7c31_offsets,
                num_7c31_offsets_2,
                offset_table,
                num_of_textures,
                num_of_textures_2,
                texture_offsets,
            },
        )
    }
}

/// One palette-indexed texture: its geometry and its pixels, already
/// looked up through the file's color table.
#[derive(Clone, Debug, Default, PartialEq, Eq)]
pub struct Texture {
    pub width: u32,
    pub height: u32,
    pub size: u32,
    pub pixels: RgbaArray,
}

impl Texture {
    /// Decodes one texture record at `offset`: two ignored words, the
    /// geometry, one more ignored word, then `size` palette indices, each
    /// resolved through the header's color table.
    pub fn parse(offset: usize, header: &Header, clean_input: &Vec<u8>) -> (r: Result<
        Texture,
        DecodeError,
    >)
        requires
            header.colortable.inner.len() == 0x100,
        ensures
            match r {
                Ok(t) => {
                    &&& offset + 24 <= clean_input@.len()
                    &&& t.width == le32_at(clean_input@, offset + 8)
                    &&& t.height == le32_at(clean_input@, offset + 12)
                    &&& t.size == le32_at(clean_input@, offset + 16)
                    &&& t.pixels.inner@ == Seq::new(
                        t.size as nat,
                        |j: int| header.colortable.inner@[clean_input@[offset + 24 + j] as int],
                    )
                },
                Err(e) => e == DecodeError::TruncatedInput,
            },
    {
        if offset > clean_input.len() || clean_input.len() - offset < 24 {
            return Err(DecodeError::TruncatedInput);
        }
        let width = read_u32(clean_input, offset + 8);
        let height = read_u32(clean_input, offset + 12);
        let size = read_u32(clean_input, offset + 16);
        if size as usize > clean_input.len() - (offset + 24) {
            return Err(DecodeError::TruncatedInput);
        }
        let mut inner: Vec<Rgba> = Vec::new();
        let mut i: usize = 0;
        while i < size as usize
            invariant
                i <= size as usize,
                offset + 24 + size as usize <= clean_input.len(),
                header.colortable.inner.len() == 0x100,
                inner@ == Seq::new(
                    i as nat,
                    |j: int| header.colortable.inner@[clean_input@[offset + 24 + j] as int],
                ),
            decreases size as usize - i,
        {
            let index = clean_input[offset + 24 + i];
            inner.push(header.colortable.inner[index as usize]);
            assert(inner@ =~= Seq::new(
                (i + 1) as nat,
                |j: int| header.colortable.inner@[clean_input@[offset as int + 24 + j] as int],
            ));
            i += 1;
        }
        Ok(Texture { width, height, size, pixels: RgbaArray { inner } })
    }

    /// The texture as a P7 image: its geometry, full value range and its
    /// pixel bytes.
    pub fn to_ppm_image(&self) -> (r: Ppm)
        ensures
            r.ppm_type == TuplType::RgbAlpha,
            r.width == self.width as usize,
            r.height == self.height as usize,
            r.depth == 4usize,
            r.maxval == 255usize,
            r.buffer == BufferType::Buffer(r.buffer->Buffer_0),
            r.buffer->Buffer_0@.len() == 4 * self.pixels.inner@.len(),
    {
        Ppm::new(
            TuplType::RgbAlpha,
            self.width as usize,
            self.height as usize,
            255,
            BufferType::Buffer(self.pixels.to_bytes()),
        )
    }
}

/// The pixel that position `k` of the stitched giant texture shows: the
/// giant is scanned in copied runs of `width - 16` pixels, four tile
/// columns per tile row, eight tile rows, with an 8-pixel frame of every
/// tile cropped away and the alpha forced to full.
pub open spec fn spec_giant_pixel(s: Seq<Texture>, width: int, height: int, k: int) -> Rgba {
    let unit = width - 16;
    let within = k % unit;
    let chunk = k / unit;
    let col = chunk % 4;
    let t = chunk / 4;
    let pr = t % (height - 16) + 8;
    let row = t / (height - 16);
    let src = s[row * 4 + col].pixels.inner@[pr * width + 8 + within];
    Rgba { r: src.r, g: src.g, b: src.b, a: 0xff }
}

/// Stitches 32 equally sized tiles into one giant texture: eight tile rows
/// of four tile columns, each tile contributing its rows 8 to `height - 8`
/// with 8 pixels cropped from either end, and the alpha forced to full.
pub fn texture_array_to_giant(width: usize, height: usize, array: Vec<Texture>) -> (r: Texture)
    requires
        16 <= width <= 0x1000,
        16 <= height <= 0x1000,
        array@.len() >= 32,
        forall|i: int|
            0 <= i < 32 ==> (#[trigger] array@[i]).pixels.inner@.len() >= (height - 8) * width,
    ensures
        r.width == 4 * width - 64,
        r.height == 8 * height - 128,
        r.size == (8 * height - 128) * (4 * width - 64),
        r.pixels.inner@.len() == 8 * ((height - 16) * (4 * (width - 16))),
        forall|k: int|
            0 <= k < r.pixels.inner@.len() ==> #[trigger] r.pixels.inner@[k] == spec_giant_pixel(
                array@,
                width as int,
                height as int,
                k,
            ),
{
    let unit = width - 16;
    let band = height - 16;
    let mut pixels: Vec<Rgba> = Vec::new();
    let mut row: usize = 0;
    while row < 8
        invariant
            row <= 8,
            unit == width - 16,
            band == height - 16,
            16 <= width <= 0x1000,
            16 <= height <= 0x1000,
            array@.len() >= 32,
            forall|i: int|
                0 <= i < 32 ==> (#[trigger] array@[i]).pixels.inner@.len() >= (height - 8) * width,
            pixels@.len() == row * (band * (4 * unit)),
            forall|k: int|
                0 <= k < pixels@.len() ==> #[trigger] pixels@[k] == spec_giant_pixel(
                    array@,
                    width as int,
                    height as int,
                    k,
                ),
        decreases 8 - row,
    {
        let ghost row_base = pixels@.len() as int;
        let mut pixel_row: usize = 8;
        while pixel_row < height - 8
            invariant
                8 <= pixel_row <= height - 8,
                row < 8,
                unit == width - 16,
                band == height - 16,
                16 <= width <= 0x1000,
                16 <= height <= 0x1000,
                array@.len() >= 32,
                forall|i: int|
                    0 <= i < 32 ==> (#[trigger] array@[i]).pixels.inner@.len() >= (height - 8)
                        * width,
                row_base == row * (band * (4 * unit)),
                pixels@.len() == row_base + (pixel_row - 8) * (4 * unit),
                forall|k: int|
                    0 <= k < pixels@.len() ==> #[trigger] pixels@[k] == spec_giant_pixel(
                        array@,
                        width as int,
                        height as int,
                        k,
                    ),
            decreases height - 8 - pixel_row,
        {
            let ghost pr_base = pixels@.len() as int;
            let mut column: usize = 0;
            while column < 4
                invariant
                    column <= 4,
                    8 <= pixel_row < height - 8,
                    row < 8,
                    unit == width - 16,
                    band == height - 16,
                    16 <= width <= 0x1000,
                    16 <= height <= 0x1000,
                    array@.len() >= 32,
                    forall|i: int|
                        0 <= i < 32 ==> (#[trigger] array@[i]).pixels.inner@.len() >= (height - 8)
                            * width,
                    row_base == row * (band * (4 * unit)),
                    pr_base == row_base + (pixel_row - 8) * (4 * unit),
                    pixels@.len() == pr_base + column * unit,
                    forall|k: int|
                        0 <= k < pixels@.len() ==> #[trigger] pixels@[k] == spec_giant_pixel(
                            array@,
                            width as int,
                            height as int,
                            k,
                        ),
                decreases 4 - column,
            {
                let id = row * 4 + column;
                let ghost chunk = (row * band + (pixel_row - 8)) * 4 + column as int;
                proof {
                    assert(pr_base + column * unit == chunk * unit) by (nonlinear_arith)
                        requires
                            pr_base == row * (band * (4 * unit)) + (pixel_row - 8) * (4 * unit),
                            chunk == (row * band + (pixel_row - 8)) * 4 + column,
                    ;
                    vstd::arithmetic::mul::lemma_mul_inequality(
                        pixel_row as int + 1,
                        height - 8,
                        width as int,
                    );
                    assert(pixel_row * width + 8 < 0x1000 * 0x1000) by (nonlinear_arith)
                        requires
                            pixel_row < 0x1000,
                            width <= 0x1000,
                    ;
                }
                let src_base = pixel_row * width + 8;
                let mut within: usize = 0;
                while within < unit
                    invariant
                        within <= unit,
                        id == row * 4 + column,
                        src_base == pixel_row * width + 8,
                        column < 4,
                        8 <= pixel_row < height - 8,
                        row < 8,
                        unit == width - 16,
                        band == height - 16,
                        16 <= width <= 0x1000,
                        16 <= height <= 0x1000,
                        array@.len() >= 32,
                        forall|i: int|
                            0 <= i < 32 ==> (#[trigger] array@[i]).pixels.inner@.len() >= (height
                                - 8) * width,
                        chunk == (row * band + (pixel_row - 8)) * 4 + column,
                        pixels@.len() == chunk * unit + within,
                        (pixel_row + 1) * width <= (height - 8) * width,
                        forall|k: int|
                            0 <= k < pixels@.len() ==> #[trigger] pixels@[k] == spec_giant_pixel(
                                array@,
                                width as int,
                                height as int,
                                k,
                            ),
                    decreases unit - within,
                {
                    proof {
                        assert(src_base + within < (pixel_row + 1) * width - 8) by (nonlinear_arith)
                            requires
                                src_base == pixel_row * width + 8,
                                within < unit,
                                unit == width - 16,
                        ;
                        assert(id < 32);
                        assert(array@[id as int].pixels.inner@.len() >= (height - 8) * width);
                        assert((height - 8) * width <= 0x1000 * 0x1000) by (nonlinear_arith)
                            requires
                                height <= 0x1000,
                                width <= 0x1000,
                                height >= 8,
                                width >= 0,
                        ;
                    }
                    let src = array[id].pixels.inner[src_base + within];
                    let px = Rgba { r: src.r, g: src.g, b: src.b, a: 0xff };
                    proof {
                        let k = pixels@.len() as int;
                        vstd::arithmetic::div_mod::lemma_fundamental_div_mod_converse(
                            k,
                            unit as int,
                            chunk,
                            within as int,
                        );
                        vstd::arithmetic::div_mod::lemma_fundamental_div_mod_converse(
                            chunk,
                            4,
                            row * band + (pixel_row - 8),
                            column as int,
                        );
                        vstd::arithmetic::div_mod::lemma_fundamental_div_mod_converse(
                            row * band + (pixel_row - 8),
                            band as int,
                            row as int,
                            pixel_row - 8,
                        );
                        assert(spec_giant_pixel(array@, width as int, height as int, k) == px);
                    }
                    pixels.push(px);
                    within += 1;
                }
                proof {
                    assert(chunk * unit + unit == (chunk + 1) * unit) by (nonlinear_arith);
                    assert((chunk + 1) * unit == pr_base + (column + 1) * unit) by (nonlinear_arith)
                        requires
                            pr_base == row * (band * (4 * unit)) + (pixel_row - 8) * (4 * unit),
                            chunk == (row * band + (pixel_row - 8)) * 4 + column,
                    ;
                }
                column += 1;
            }
            proof {
                assert(pr_base + 4 * unit == row_base + (pixel_row - 8 + 1) * (4 * unit))
                    by (nonlinear_arith)
                    requires
                        pr_base == row_base + (pixel_row - 8) * (4 * unit),
                ;
            }
            pixel_row += 1;
        }
        proof {
            assert(row_base + (height - 16) * (4 * unit) == (row + 1) * (band * (4 * unit)))
                by (nonlinear_arith)
                requires
                    row_base == row * (band * (4 * unit)),
                    band == height - 16,
            ;
            assert(pixels@.len() == row_base + (height - 8 - 8) * (4 * unit));
        }
        row += 1;
    }
    let giant_width = 4 * width - 64;
    let giant_height = 8 * height - 128;
    proof {
        assert(giant_height * giant_width <= 0x8000 * 0x4000) by (nonlinear_arith)
            requires
                giant_height <= 0x8000,
                giant_width <= 0x4000,
                giant_height >= 0,
                giant_width >= 0,
        ;
        assert(8 * (band * (4 * unit)) == 8 * ((height - 16) * (4 * (width - 16))));
    }
    let size = (giant_height as u32) * (giant_width as u32);
    Texture {
        width: giant_width as u32,
        height: giant_height as u32,
        size,
        pixels: RgbaArray { inner: pixels },
    }
}

/// The whole terrain file as far as this crate reads it.
#[derive(Clone, Debug, Default, PartialEq, Eq)]
pub struct Trn {
    pub release: Release,
    pub track: Track,
    pub header: Header,
    pub textures: Vec<Texture>,
}

} // verus!
