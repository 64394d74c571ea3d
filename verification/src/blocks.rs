//! The terrain file's block records: each block carries four fixed-size
//! tables of bytes and colors.
use crate::bytes::{le32_at, read_bytes, read_u32, DecodeError};
use crate::color::{spec_rgb_at, Rgba, RgbaArray};
use crate::trn::Header;
use vstd::prelude::*;

verus! {

/// A block record occupies this many bytes: one word, 17 rows of 40
/// bytes, 17 color rows of 17 three-byte colors, and two 17-by-17 byte
/// tables.
pub const BLOCK_SIZE: usize = 4 + 17 * 40 + 17 * 51 + 17 * 17 + 17 * 17;

/// One terrain block: its marker word and its four tables.
#[derive(Clone, Debug, Default, PartialEq, Eq)]
pub struct Block7c31 {
    pub _7c31: u32,
    pub _aeb3: Vec<Vec<u8>>,
    pub _7f: Vec<RgbaArray>,
    pub _00: Vec<Vec<u8>>,
    pub _0f: Vec<Vec<u8>>,
}

impl Block7c31 {
    /// Decodes the block record at `offset`.
    pub fn parse(offset: usize, clean_input: &Vec<u8>) -> (r: Result<Block7c31, DecodeError>)
        ensures
            match r {
                Ok(t) => {
                    &&& offset + BLOCK_SIZE <= clean_input@.len()
                    &&& t._7c31 == le32_at(clean_input@, offset as int)
                    &&& t._aeb3@.len() == 17
                    &&& forall|i: int|
                        0 <= i < 17 ==> (#[trigger] t._aeb3@[i])@ == clean_input@.subrange(
                            offset + 4 + i * 40,
                            offset + 4 + i * 40 + 40,
                        )
                    &&& t._7f@.len() == 17
                    &&& forall|i: int|
                        0 <= i < 17 ==> (#[trigger] t._7f@[i]).inner@ == Seq::new(
                            17,
                            |j: int| spec_rgb_at(clean_input@, offset + 684 + i * 51 + j * 3),
                        )
                    &&& t._00@.len() == 17
                    &&& forall|i: int|
                        0 <= i < 17 ==> (#[trigger] t._00@[i])@ == clean_input@.subrange(
                            offset + 1551 + i * 17,
                            offset + 1551 + i * 17 + 17,
                        )
                    &&& t._0f@.len() == 17
                    &&& forall|i: int|
                        0 <= i < 17 ==> (#[trigger] t._0f@[i])@ == clean_input@.subrange(
                            offset + 1840 + i * 17,
                            offset + 1840 + i * 17 + 17,
                        )
                },
                Err(e) => e == DecodeError::TruncatedInput,
            },
    {
        if offset > clean_input.len() || clean_input.len() - offset < BLOCK_SIZE {
            return Err(DecodeError::TruncatedInput);
        }
        let _7c31 = read_u32(clean_input, offset);
        let mut _aeb3: Vec<Vec<u8>> = Vec::new();
        let mut i: usize = 0;
        while i < 17
            invariant
                i <= 17,
                offset + BLOCK_SIZE <= clean_input.len(),
                BLOCK_SIZE == 2129,
                _aeb3@.len() == i,
                forall|j: int|
                    0 <= j < i ==> (#[trigger] _aeb3@[j])@ == clean_input@.subrange(
                        offset + 4 + j * 40,
                        offset + 4 + j * 40 + 40,
                    ),
            decreases 17 - i,
        {
            _aeb3.push(read_bytes(clean_input, offset + 4 + i * 40, 40));
            i += 1;
        }
        let mut _7f: Vec<RgbaArray> = Vec::new();
        let mut k: usize = 0;
        while k < 17
            invariant
                k <= 17,
                offset + BLOCK_SIZE <= clean_input.len(),
                BLOCK_SIZE == 2129,
                _7f@.len() == k,
                forall|j: int|
                    0 <= j < k ==> (#[trigger] _7f@[j]).inner@ == Seq::new(
                        17,
                        |q: int| spec_rgb_at(clean_input@, offset + 684 + j * 51 + q * 3),
                    ),
            decreases 17 - k,
        {
            _7f.push(RgbaArray::from_bytes_rgb(clean_input, offset + 684 + k * 51, 17));
            k += 1;
        }
        let mut _00: Vec<Vec<u8>> = Vec::new();
        let mut m: usize = 0;
        while m < 17
            invariant
                m <= 17,
                offset + BLOCK_SIZE <= clean_input.len(),
                BLOCK_SIZE == 2129,
                _00@.len() == m,
                forall|j: int|
                    0 <= j < m ==> (#[trigger] _00@[j])@ == clean_input@.subrange(
                        offset + 1551 + j * 17,
                        offset + 1551 + j * 17 + 17,
                    ),
            decreases 17 - m,
        {
            _00.push(read_bytes(clean_input, offset + 1551 + m * 17, 17));
            m += 1;
        }
        let mut _0f: Vec<Vec<u8>> = Vec::new();
        let mut n: usize = 0;
        while n < 17
            invariant
                n <= 17,
                offset + BLOCK_SIZE <= clean_input.len(),
                BLOCK_SIZE == 2129,
                _0f@.len() == n,
                forall|j: int|
                    0 <= j < n ==> (#[trigger] _0f@[j])@ == clean_input@.subrange(
                        offset + 1840 + j * 17,
                        offset + 1840 + j * 17 + 17,
                    ),
            decreases 17 - n,
        {
            _0f.push(read_bytes(clean_input, offset + 1840 + n * 17, 17));
            n += 1;
        }
        Ok(Block7c31 { _7c31, _aeb3, _7f, _00, _0f })
    }
}

/// Every terrain block the header's offset table names, in table order.
#[derive(Clone, Debug, Default, PartialEq, Eq)]
pub struct Block7c31Array {
    pub inner: Vec<Block7c31>,
}

impl Block7c31Array {
    /// Decodes one block per offset-table entry.
    pub fn parse(clean_input: &Vec<u8>, header: &Header) -> (r: Result<Block7c31Array, DecodeError>)
        ensures
            match r {
                Ok(a) => a.inner@.len() == header.offset_table@.len(),
                Err(e) => e == DecodeError::TruncatedInput,
            },
    {
        let mut inner: Vec<Block7c31> = Vec::new();
        let mut i: usize = 0;
        while i < header.offset_table.len()
            invariant
                i <= header.offset_table@.len(),
                inner@.len() == i,
            decreases header.offset_table@.len() - i,
        {
            let blob = match Block7c31::parse(header.offset_table[i], clean_input) {
                Ok(b) => b,
                Err(e) => {
                    return Err(e);
                },
            };
            inner.push(blob);
            i += 1;
        }
        Ok(Block7c31Array { inner })
    }
}

} // verus!
