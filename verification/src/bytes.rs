//! Primitive codec: little-endian integers, raw byte runs and NUL-trimmed
//! text decoded from a bounded byte range.
use vstd::prelude::*;

verus! {

/// The typed failures a decode can end in.  Any of them aborts the decode of
/// the whole buffer; no partial tree is surfaced.
#[derive(Clone, Copy, Debug, PartialEq, Eq, Structural)]
pub enum DecodeError {
    /// Fewer bytes remain than a header or a declared length requires.
    TruncatedInput,
    /// An embedded trigger's header does not carry the required tag.
    MagicMismatch,
    /// A header's declared sizes contradict each other, or a container's
    /// child region is not exhausted exactly.
    SizeInconsistency,
    /// The tree nests more deeply than the walker's fixed limit.
    DepthLimit,
}

/// The little-endian 16-bit value stored at `b[i..i+2]`.
pub open spec fn le16_at(b: Seq<u8>, i: int) -> u16
    recommends
        0 <= i,
        i + 2 <= b.len(),
{
    (b[i] + b[i + 1] * 0x100) as u16
}

/// The little-endian 32-bit value stored at `b[i..i+4]`.
pub open spec fn le32_at(b: Seq<u8>, i: int) -> u32
    recommends
        0 <= i,
        i + 4 <= b.len(),
{
    (b[i] + b[i + 1] * 0x100 + b[i + 2] * 0x10000 + b[i + 3] * 0x1000000) as u32
}

/// Decodes one byte.
pub fn read_u8(b: &Vec<u8>, pos: usize) -> (r: u8)
    requires
        pos < b.len(),
    ensures
        r == b@[pos as int],
{
    b[pos]
}

/// Decodes a little-endian 16-bit integer.
pub fn read_u16(b: &Vec<u8>, pos: usize) -> (r: u16)
    requires
        pos + 2 <= b.len(),
    ensures
        r == le16_at(b@, pos as int),
{
    (b[pos] as u16) + (b[pos + 1] as u16) * 0x100
}

/// Decodes a little-endian 32-bit integer.
pub fn read_u32(b: &Vec<u8>, pos: usize) -> (r: u32)
    requires
        pos + 4 <= b.len(),
    ensures
        r == le32_at(b@, pos as int),
{
    (b[pos] as u32) + (b[pos + 1] as u32) * 0x100 + (b[pos + 2] as u32) * 0x10000 + (b[pos
        + 3] as u32) * 0x1000000
}

/// Copies the `n` bytes starting at `pos` out of the buffer.
pub fn read_bytes(b: &Vec<u8>, pos: usize, n: usize) -> (r: Vec<u8>)
    requires
        pos + n <= b.len(),
    ensures
        r@ == b@.subrange(pos as int, pos as int + n as int),
{
    let mut out: Vec<u8> = Vec::new();
    let mut i: usize = 0;
    while i < n
        invariant
            i <= n,
            pos + n <= b.len(),
            out@ == b@.subrange(pos as int, pos as int + i as int),
        decreases n - i,
    {
        out.push(b[pos + i]);
        assert(out@ =~= b@.subrange(pos as int, pos as int + (i + 1) as int));
        i += 1;
    }
    out
}

/// `s` with its trailing run of `0x00` bytes removed.
pub open spec fn trim_trailing_zeros(s: Seq<u8>) -> Seq<u8>
    decreases s.len(),
{
    if s.len() > 0 && s[s.len() - 1] == 0 {
        trim_trailing_zeros(s.drop_last())
    } else {
        s
    }
}

/// Removes the trailing run of `0x00` bytes.
pub fn trim_zeros(v: &Vec<u8>) -> (r: Vec<u8>)
    ensures
        r@ == trim_trailing_zeros(v@),
{
    let mut n: usize = v.len();
    proof {
        assert(v@.subrange(0, n as int) =~= v@);
    }
    while n > 0 && v[n - 1] == 0
        invariant
            n <= v.len(),
            trim_trailing_zeros(v@) == trim_trailing_zeros(v@.subrange(0, n as int)),
        decreases n,
    {
        proof {
            assert(v@.subrange(0, n as int).drop_last() =~= v@.subrange(0, n as int - 1));
        }
        n -= 1;
    }
    let r = read_bytes(v, 0, n);
    proof {
        if n > 0 {
            assert(trim_trailing_zeros(v@.subrange(0, n as int)) == v@.subrange(0, n as int));
        } else {
            assert(v@.subrange(0, 0int) =~= Seq::<u8>::empty());
        }
    }
    r
}

/// What `String::from_utf8_lossy` yields on a byte sequence; a function of
/// the bytes alone.
pub uninterp spec fn utf8_lossy_of(bytes: Seq<u8>) -> Seq<char>;

/// Relies on `String::from_utf8_lossy`: the result depends on the bytes
/// alone, and bytes that are valid UTF-8 decode to exactly their scalar
/// values.
#[verifier::external_body]
pub(crate) fn utf8_lossy(bytes: &Vec<u8>) -> (r: String)
    ensures
        r@ == utf8_lossy_of(bytes@),
        vstd::utf8::valid_utf8(bytes@) ==> r@ == vstd::utf8::decode_utf8(bytes@),
{
    String::from_utf8_lossy(bytes.as_slice()).into_owned()
}

/// Bytes that are all ASCII form valid UTF-8 and decode to exactly their
/// own values as characters.
pub proof fn lemma_ascii_decode(bytes: Seq<u8>)
    requires
        forall|i: int| 0 <= i < bytes.len() ==> bytes[i] < 0x80,
    ensures
        vstd::utf8::valid_utf8(bytes),
        vstd::utf8::decode_utf8(bytes).len() == bytes.len(),
        forall|i: int|
            0 <= i < bytes.len() ==> #[trigger] vstd::utf8::decode_utf8(bytes)[i] == bytes[i] as char,
{
    let cs = bytes.map_values(|b: u8| b as char);
    assert(vstd::utf8::is_ascii_chars(cs)) by {
        assert forall|i: int| 0 <= i < cs.len() implies '\0' <= #[trigger] cs[i] <= '\u{7f}' by {
            assert(cs[i] == bytes[i] as char);
        }
    }
    vstd::utf8::is_ascii_chars_encode_utf8(cs);
    assert(vstd::utf8::encode_utf8(cs) =~= bytes);
    vstd::utf8::encode_utf8_valid_utf8(cs);
    vstd::utf8::encode_utf8_decode_utf8(cs);
}

/// The text carried by a raw on-disk name field: its trailing NUL padding
/// stripped, then decoded as UTF-8, lossily.
pub open spec fn string_model(raw: Seq<u8>) -> Seq<char> {
    utf8_lossy_of(trim_trailing_zeros(raw))
}

/// Decodes a raw name field: trailing NUL padding stripped, the rest read
/// as UTF-8, lossily.
pub fn decode_text(raw: &Vec<u8>) -> (r: String)
    ensures
        r@ == string_model(raw@),
{
    let trimmed = trim_zeros(raw);
    utf8_lossy(&trimmed)
}

} // verus!
