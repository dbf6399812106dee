//! Request dimensions and file-type sniffing.

use vstd::prelude::*;
use vstd::string::StrSliceExecFns;

verus! {

/// A requested dimension clamped to 1..=4096.
pub fn sane_dim(v: u32) -> (r: u32)
    ensures
        1 <= r <= 4096,
        1 <= v <= 4096 ==> r == v,
        v < 1 ==> r == 1,
        v > 4096 ==> r == 4096,
{
    if v < 1 {
        1
    } else if v > 4096 {
        4096
    } else {
        v
    }
}

/// The ASCII bytes of "%PDF-".
pub open spec fn pdf_magic() -> Seq<u8> {
    seq![0x25u8, 0x50u8, 0x44u8, 0x46u8, 0x2du8]
}

/// Whether `data` starts with the PDF signature "%PDF-".
pub open spec fn looks_like_pdf(data: Seq<u8>) -> bool {
    data.len() >= 5 && data.subrange(0, 5) == pdf_magic()
}

/// Whether the file starts with the PDF signature "%PDF-".
pub fn is_pdf_format(data: &[u8]) -> (r: bool)
    ensures
        r == looks_like_pdf(data@),
{
    if data.len() < 5 {
        return false;
    }
    let r = data[0] == 0x25 && data[1] == 0x50 && data[2] == 0x44 && data[3] == 0x46 && data[4] == 0x2d;
    assert(r == (data@.subrange(0, 5) =~= pdf_magic()));
    r
}

/// Whether the four bytes of `data` at `i` are `a b c d`.
pub open spec fn bytes_at(data: Seq<u8>, i: int, a: u8, b: u8, c: u8, d: u8) -> bool {
    0 <= i && i + 4 <= data.len() && data[i] == a && data[i + 1] == b && data[i + 2] == c && data[i
        + 3] == d
}

/// Whether the four bytes at `i` name a HEIF brand of HEVC pictures:
/// "heic", "heix", "hevc" or "hevx".
pub open spec fn heic_brand_at(data: Seq<u8>, i: int) -> bool {
    bytes_at(data, i, 0x68, 0x65, 0x69, 0x63) || bytes_at(data, i, 0x68, 0x65, 0x69, 0x78)
        || bytes_at(data, i, 0x68, 0x65, 0x76, 0x63) || bytes_at(data, i, 0x68, 0x65, 0x76, 0x78)
}

/// Whether `data` (at least 12 bytes) holds an "ftyp" box tag followed by a
/// HEIC brand, the tag starting before the last 8 bytes.
pub open spec fn looks_like_heic(data: Seq<u8>) -> bool {
    data.len() >= 12 && exists|i: int|
        0 <= i < data.len() - 8 && #[trigger] bytes_at(data, i, 0x66, 0x74, 0x79, 0x70)
            && heic_brand_at(data, i + 4)
}

/// Whether the four bytes at `i` are `a b c d`.
fn has_bytes_at(data: &[u8], i: usize, a: u8, b: u8, c: u8, d: u8) -> (r: bool)
    requires
        i + 4 <= data@.len(),
    ensures
        r == bytes_at(data@, i as int, a, b, c, d),
{
    data[i] == a && data[i + 1] == b && data[i + 2] == c && data[i + 3] == d
}

/// Whether the file looks like a HEIC picture (an "ftyp" box with a HEVC brand).
pub fn is_heic_format(data: &[u8]) -> (r: bool)
    ensures
        r == looks_like_heic(data@),
{
    let n = data.len();
    if n < 12 {
        return false;
    }
    let end = n - 8;
    let mut i: usize = 0;
    while i < end
        invariant
            n == data@.len(),
            n >= 12,
            end == n - 8,
            i <= end,
            forall|j: int|
                0 <= j < i ==> !(#[trigger] bytes_at(data@, j, 0x66, 0x74, 0x79, 0x70)
                    && heic_brand_at(data@, j + 4)),
        decreases end - i,
    {
        if has_bytes_at(data, i, 0x66, 0x74, 0x79, 0x70) {
            let k = i + 4;
            if has_bytes_at(data, k, 0x68, 0x65, 0x69, 0x63) || has_bytes_at(data, k, 0x68, 0x65, 0x69, 0x78)
                || has_bytes_at(data, k, 0x68, 0x65, 0x76, 0x63) || has_bytes_at(
                data,
                k,
                0x68,
                0x65,
                0x76,
                0x78,
            ) {
                return true;
            }
        }
        i = i + 1;
    }
    false
}

/// Whether `s` ends with `suffix`.
pub open spec fn ends_with(s: Seq<char>, suffix: Seq<char>) -> bool {
    s.len() >= suffix.len() && s.subrange(s.len() - suffix.len(), s.len() as int) == suffix
}

/// Whether `s` ends with `suffix`.
pub fn text_ends_with(s: &str, suffix: &str) -> (r: bool)
    ensures
        r == ends_with(s@, suffix@),
{
    let n = s.unicode_len();
    let m = suffix.unicode_len();
    if m > n {
        return false;
    }
    let mut j: usize = 0;
    while j < m
        invariant
            n == s@.len(),
            m == suffix@.len(),
            m <= n,
            j <= m,
            forall|k: int| 0 <= k < j ==> s@[n - m + k] == #[trigger] suffix@[k],
        decreases m - j,
    {
        if s.get_char(n - m + j) != suffix.get_char(j) {
            assert(s@.subrange(n - m, n as int)[j as int] != suffix@[j as int]);
            return false;
        }
        j = j + 1;
    }
    assert(s@.subrange(n - m, n as int) =~= suffix@);
    true
}

/// The content type of a stored file by its extension.
pub open spec fn content_type_for(path: Seq<char>) -> Seq<char> {
    if ends_with(path, ".jpg"@) || ends_with(path, ".jpeg"@) {
        "image/jpeg"@
    } else if ends_with(path, ".png"@) {
        "image/png"@
    } else if ends_with(path, ".pdf"@) {
        "application/pdf"@
    } else {
        "image/webp"@
    }
}

/// The content type of a stored file by its extension; WebP by default.
pub fn guess_content_type_by_ext(path: &str) -> (r: &'static str)
    ensures
        r@ == content_type_for(path@),
{
    if text_ends_with(path, ".jpg") || text_ends_with(path, ".jpeg") {
        "image/jpeg"
    } else if text_ends_with(path, ".png") {
        "image/png"
    } else if text_ends_with(path, ".pdf") {
        "application/pdf"
    } else {
        "image/webp"
    }
}

} // verus!
