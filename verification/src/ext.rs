//! Archive file extensions and path text normalization.
use crate::bytes::{lemma_ascii_decode, utf8_lossy, utf8_lossy_of};
use vstd::prelude::*;
use vstd::string::StrSliceExecFns;
use vstd::string::StringExecFns;
use vstd::string::StringSliceAdditionalSpecFns;

verus! {

broadcast use vstd::string::is_ascii_spec_bytes;

/// The archive formats told apart by file extension.
#[derive(Clone, Copy, Debug, PartialEq, Eq, Structural)]
pub enum FileExtension {
    Xbr,
    Res,
    Pak,
}

impl FileExtension {
    /// The lower-case extension text of this format.
    pub fn extension(&self) -> (r: String)
        ensures
            r@ == match *self {
                FileExtension::Xbr => "xbr"@,
                FileExtension::Res => "res"@,
                FileExtension::Pak => "pak"@,
            },
    {
        match self {
            FileExtension::Xbr => String::from_str("xbr"),
            FileExtension::Res => String::from_str("res"),
            FileExtension::Pak => String::from_str("pak"),
        }
    }

    /// The format a lower-case extension names.  Only the three known
    /// extensions are accepted.
    pub fn from_extension(ext: &String) -> (r: Self)
        requires
            ext@ == "xbr"@ || ext@ == "res"@ || ext@ == "pak"@,
        ensures
            ext@ == "xbr"@ ==> r == FileExtension::Xbr,
            ext@ == "res"@ ==> r == FileExtension::Res,
            ext@ == "pak"@ ==> r == FileExtension::Pak,
    {
        proof {
            reveal_strlit("xbr");
            reveal_strlit("res");
            reveal_strlit("pak");
            assert("xbr"@[0] == 'x');
            assert("res"@[0] == 'r');
            assert("pak"@[0] == 'p');
            assert("xbr"@ != "res"@);
            assert("xbr"@ != "pak"@);
            assert("res"@ != "pak"@);
        }
        let is_xbr = *ext == String::from_str("xbr");
        let is_res = *ext == String::from_str("res");
        if is_xbr {
            FileExtension::Xbr
        } else if is_res {
            FileExtension::Res
        } else {
            FileExtension::Pak
        }
    }
}

/// Path bytes with every backslash turned into a forward slash.
pub open spec fn spec_win_to_posix(b: Seq<u8>) -> Seq<u8> {
    Seq::new(
        b.len(),
        |i: int|
            if b[i] == 0x5c {
                0x2fu8
            } else {
                b[i]
            },
    )
}

/// Replaces every backslash byte with a forward slash.
pub fn win_to_posix_bytes(bytes: &Vec<u8>) -> (r: Vec<u8>)
    ensures
        r@ == spec_win_to_posix(bytes@),
{
    let mut out: Vec<u8> = Vec::new();
    let mut i: usize = 0;
    while i < bytes.len()
        invariant
            i <= bytes@.len(),
            out@ == spec_win_to_posix(bytes@).take(i as int),
        decreases bytes@.len() - i,
    {
        let b = bytes[i];
        if b == 0x5c {
            out.push(0x2f);
        } else {
            out.push(b);
        }
        proof {
            assert(out@ =~= spec_win_to_posix(bytes@).take(i as int + 1));
        }
        i += 1;
    }
    proof {
        assert(out@ =~= spec_win_to_posix(bytes@));
    }
    out
}

/// Reads raw path bytes as POSIX-style path text: backslashes become
/// forward slashes, the rest is decoded as UTF-8, lossily.
pub fn posix_path_text(raw: &Vec<u8>) -> (r: String)
    ensures
        r@ == utf8_lossy_of(spec_win_to_posix(raw@)),
{
    let out = win_to_posix_bytes(raw);
    utf8_lossy(&out)
}

/// Rewrites a Windows-style path as a POSIX-style one: every backslash in
/// the path's UTF-8 bytes becomes a forward slash, and the result is read
/// back as text.  On an ASCII path this is exactly a character-for-
/// character replacement.
pub fn path_windows_to_posix(path: &str) -> (r: String)
    ensures
        r@ == utf8_lossy_of(spec_win_to_posix(path.spec_bytes())),
        path.is_ascii() ==> r@.len() == path@.len(),
        path.is_ascii() ==> forall|i: int|
            0 <= i < path@.len() ==> #[trigger] r@[i] == if path@[i] == '\\' {
                '/'
            } else {
                path@[i]
            },
{
    let bytes = path.as_bytes_vec();
    let out = win_to_posix_bytes(&bytes);
    let r = utf8_lossy(&out);
    proof {
        if path.is_ascii() {
            assert(path.spec_bytes() =~= Seq::new(path@.len(), |k: int| path@.index(k) as u8));
            assert forall|k: int| 0 <= k < out@.len() implies out@[k] < 0x80 by {
                assert(path@[k] <= '\u{7f}');
            }
            lemma_ascii_decode(out@);
            assert forall|k: int| 0 <= k < path@.len() implies #[trigger] r@[k] == (if path@[k]
                == '\\' {
                '/'
            } else {
                path@[k]
            }) by {
                assert(r@[k] == out@[k] as char);
                assert(path@[k] <= '\u{7f}');
                if path@[k] == '\\' {
                    assert(path.spec_bytes()[k] == 0x5c);
                } else {
                    assert(path.spec_bytes()[k] != 0x5c);
                    assert((path@[k] as u8) as char == path@[k]);
                }
            }
        }
    }
    r
}

} // verus!
