//! Portable-arbitrary-map output: the P7 header and the byte image a
//! decoded texture is written out as.
use crate::bytes::{lemma_ascii_decode, utf8_lossy};
use vstd::prelude::*;
use vstd::string::StrSliceExecFns;
use vstd::string::StringExecFns;

verus! {

/// The tuple types of the P7 format.
#[derive(Clone, Debug, Default, PartialEq, Eq, Structural)]
pub enum TuplType {
    BlackAndWhite,
    GrayScale,
    Rgb,
    BlackAndWhiteAlpha,
    GrayScaleAlpha,
    #[default]
    RgbAlpha,
}

impl TuplType {
    /// The keyword the P7 header spells this tuple type with.
    pub fn name(&self) -> (r: String)
        ensures
            r@ == match *self {
                TuplType::BlackAndWhite => "BLACKANDWHITE"@,
                TuplType::GrayScale => "GRAYSCALE"@,
                TuplType::Rgb => "RGB"@,
                TuplType::BlackAndWhiteAlpha => "BLACKANDWHITE_ALPHA"@,
                TuplType::GrayScaleAlpha => "GRAYSCALE_ALPHA"@,
                TuplType::RgbAlpha => "RGB_ALPHA"@,
            },
    {
        match self {
            TuplType::BlackAndWhite => String::from_str("BLACKANDWHITE"),
            TuplType::GrayScale => String::from_str("GRAYSCALE"),
            TuplType::Rgb => String::from_str("RGB"),
            TuplType::BlackAndWhiteAlpha => String::from_str("BLACKANDWHITE_ALPHA"),
            TuplType::GrayScaleAlpha => String::from_str("GRAYSCALE_ALPHA"),
            TuplType::RgbAlpha => String::from_str("RGB_ALPHA"),
        }
    }
}

/// The pixel bytes an image carries: one flat buffer, or several held
/// apart to be written back to back.
#[derive(Clone, Debug, Default, PartialEq, Eq)]
pub enum BufferType {
    #[default]
    Default,
    Buffer(Vec<u8>),
    Buffers(Vec<Vec<u8>>),
}

/// The bytes of a run of buffers, back to back.
pub open spec fn spec_flat_bytes(s: Seq<Vec<u8>>) -> Seq<u8>
    decreases s,
{
    if s.len() == 0 {
        Seq::empty()
    } else {
        s[0]@ + spec_flat_bytes(s.drop_first())
    }
}

/// What a `BufferType` flattens to.
pub open spec fn spec_buffer_bytes(b: BufferType) -> Seq<u8>
    recommends
        !(b is Default),
{
    match b {
        BufferType::Default => Seq::empty(),
        BufferType::Buffer(v) => v@,
        BufferType::Buffers(vs) => spec_flat_bytes(vs@),
    }
}

impl BufferType {
    /// The pixel bytes, flat.  An empty `Default` holds no buffer to turn
    /// to bytes.
    pub fn to_bytes(&self) -> (r: Vec<u8>)
        requires
            !(*self is Default),
        ensures
            r@ == spec_buffer_bytes(*self),
    {
        match self {
            BufferType::Default => {
                proof {
                    assert(false);
                }
                Vec::new()
            },
            BufferType::Buffer(buffer) => {
                let r = buffer.clone();
                proof {
                    assert(r@ =~= buffer@);
                }
                r
            },
            BufferType::Buffers(buffers) => {
                let mut out: Vec<u8> = Vec::new();
                let mut i: usize = 0;
                proof {
                    assert(buffers@.skip(0) =~= buffers@);
                    assert(out@ + spec_flat_bytes(buffers@) =~= spec_flat_bytes(buffers@));
                }
                while i < buffers.len()
                    invariant
                        i <= buffers@.len(),
                        out@ + spec_flat_bytes(buffers@.skip(i as int)) == spec_flat_bytes(
                            buffers@,
                        ),
                    decreases buffers@.len() - i,
                {
                    let ghost before = out@;
                    proof {
                        assert(buffers@.skip(i as int)[0] == buffers@[i as int]);
                        assert(buffers@.skip(i as int).drop_first() =~= buffers@.skip(i as int + 1));
                    }
                    let mut piece = buffers[i].clone();
                    proof {
                        assert(piece@ =~= buffers@[i as int]@);
                    }
                    out.append(&mut piece);
                    proof {
                        assert(out@ + spec_flat_bytes(buffers@.skip(i as int + 1)) =~= before
                            + spec_flat_bytes(buffers@.skip(i as int)));
                    }
                    i += 1;
                }
                proof {
                    assert(spec_flat_bytes(buffers@.skip(i as int)) =~= Seq::<u8>::empty());
                    assert(out@ + Seq::<u8>::empty() =~= out@);
                }
                out
            },
        }
    }
}

/// The decimal digit bytes of a non-negative number, most significant
/// first, with no sign and no leading zeros (zero itself is one digit).
pub open spec fn spec_decimal(n: int) -> Seq<u8>
    recommends
        n >= 0,
    decreases n,
{
    if n < 10 {
        Seq::empty().push((48 + n) as u8)
    } else {
        spec_decimal(n / 10).push((48 + n % 10) as u8)
    }
}

/// The same digits as characters.
pub open spec fn spec_dec_chars(n: int) -> Seq<char>
    recommends
        n >= 0,
    decreases n,
{
    if n < 10 {
        Seq::empty().push(((48 + n) as u8) as char)
    } else {
        spec_dec_chars(n / 10).push(((48 + n % 10) as u8) as char)
    }
}

/// Every decimal digit byte is ASCII, and the characters are the bytes.
proof fn lemma_decimal_chars(n: int)
    requires
        n >= 0,
    ensures
        spec_decimal(n).len() == spec_dec_chars(n).len(),
        forall|i: int| 0 <= i < spec_decimal(n).len() ==> #[trigger] spec_decimal(n)[i] < 0x80,
        forall|i: int|
            0 <= i < spec_decimal(n).len() ==> #[trigger] spec_dec_chars(n)[i] == (spec_decimal(
                n,
            )[i] as char),
    decreases n,
{
    if n >= 10 {
        lemma_decimal_chars(n / 10);
    }
}

/// Writes a number as its decimal digit bytes.
pub fn decimal_digits(n: usize) -> (r: Vec<u8>)
    ensures
        r@ == spec_decimal(n as int),
    decreases n,
{
    if n < 10 {
        let mut v: Vec<u8> = Vec::new();
        v.push(48 + (n as u8));
        proof {
            assert(v@ =~= Seq::empty().push((48 + n) as u8));
        }
        v
    } else {
        let mut v = decimal_digits(n / 10);
        v.push(48 + ((n % 10) as u8));
        v
    }
}

/// Writes a number as its decimal text.
pub fn decimal_string(n: usize) -> (r: String)
    ensures
        r@ == spec_dec_chars(n as int),
{
    let digits = decimal_digits(n);
    proof {
        lemma_decimal_chars(n as int);
        lemma_ascii_decode(digits@);
        assert(vstd::utf8::decode_utf8(digits@) =~= spec_dec_chars(n as int));
    }
    utf8_lossy(&digits)
}

/// One P7 image: its geometry, its tuple-type keyword and its pixel bytes.
#[derive(Clone, Debug, Default, PartialEq, Eq)]
pub struct Ppm {
    pub ppm_type: TuplType,
    pub width: usize,
    pub height: usize,
    pub depth: usize,
    pub maxval: usize,
    pub tupltype: String,
    pub buffer: BufferType,
}

/// The P7 header text for the given geometry and tuple-type keyword.
pub open spec fn spec_ppm_header(w: int, h: int, d: int, m: int, t: Seq<char>) -> Seq<char> {
    "P7\nWIDTH "@ + spec_dec_chars(w) + "\nHEIGHT "@ + spec_dec_chars(h) + "\nDEPTH "@
        + spec_dec_chars(d) + "\nMAXVAL "@ + spec_dec_chars(m) + "\nTUPLTYPE "@ + t + "\nENDHDR\n"@
}

impl Ppm {
    /// Builds an RGB-alpha image of depth four.
    pub fn new(ppm_type: TuplType, width: usize, height: usize, maxval: usize, buffer: BufferType)
        -> (r: Self)
        ensures
            r.ppm_type == ppm_type,
            r.width == width,
            r.height == height,
            r.depth == 4usize,
            r.maxval == maxval,
            r.tupltype@ == "RGB_ALPHA"@,
            r.buffer == buffer,
    {
        Ppm {
            ppm_type,
            width,
            height,
            depth: 4,
            maxval,
            tupltype: String::from_str("RGB_ALPHA"),
            buffer,
        }
    }

    /// The image's P7 header text.
    pub fn get_header(&self) -> (r: String)
        ensures
            r@ == spec_ppm_header(
                self.width as int,
                self.height as int,
                self.depth as int,
                self.maxval as int,
                self.tupltype@,
            ),
    {
        let mut s = String::new();
        s.append("P7\nWIDTH ");
        let w = decimal_string(self.width);
        s.append(w.as_str());
        s.append("\nHEIGHT ");
        let h = decimal_string(self.height);
        s.append(h.as_str());
        s.append("\nDEPTH ");
        let d = decimal_string(self.depth);
        s.append(d.as_str());
        s.append("\nMAXVAL ");
        let m = decimal_string(self.maxval);
        s.append(m.as_str());
        s.append("\nTUPLTYPE ");
        s.append(self.tupltype.as_str());
        s.append("\nENDHDR\n");
        proof {
            assert(s@ =~= spec_ppm_header(
                self.width as int,
                self.height as int,
                self.depth as int,
                self.maxval as int,
                self.tupltype@,
            ));
        }
        s
    }

    /// The image as bytes: either the given buffer flattened on its own,
    /// or the header's UTF-8 bytes followed by the image's own buffer.
    pub fn to_bytes(&self, buffer: Option<BufferType>) -> (r: Vec<u8>)
        requires
            match buffer {
                Some(b) => !(b is Default),
                None => !(self.buffer is Default),
            },
        ensures
            r@ == match buffer {
                Some(b) => spec_buffer_bytes(b),
                None => vstd::utf8::encode_utf8(
                    spec_ppm_header(
                        self.width as int,
                        self.height as int,
                        self.depth as int,
                        self.maxval as int,
                        self.tupltype@,
                    ),
                ) + spec_buffer_bytes(self.buffer),
            },
    {
        match buffer {
            Some(buf) => buf.to_bytes(),
            None => {
                let header = self.get_header();
                let mut out: Vec<u8> = header.as_str().as_bytes_vec();
                let mut rest = self.buffer.to_bytes();
                out.append(&mut rest);
                proof {
                    assert(out@ =~= vstd::utf8::encode_utf8(
                        spec_ppm_header(
                            self.width as int,
                            self.height as int,
                            self.depth as int,
                            self.maxval as int,
                            self.tupltype@,
                        ),
                    ) + spec_buffer_bytes(self.buffer));
                }
                out
            },
        }
    }
}

} // verus!
