//! Where a converted file is stored, how it is linked, and the per-file
//! report of a batch.

use vstd::prelude::*;
use vstd::string::StringSliceAdditionalSpecFns;
use vstd::string::StrSliceExecFns;
use crate::text::{decimal, push_decimal3, push_text, zero_padded};

verus! {

/// Whether a byte is left as it is in a URL: an ASCII letter or digit, or
/// one of `-`, `.`, `_`, `~`.
pub open spec fn url_safe(b: u8) -> bool {
    (0x30 <= b && b <= 0x39) || (0x41 <= b && b <= 0x5a) || (0x61 <= b && b <= 0x7a) || b == 0x2d
        || b == 0x2e || b == 0x5f || b == 0x7e
}

/// The upper-case hexadecimal digit character of `d < 16`.
pub open spec fn upper_hex_char(d: nat) -> char {
    if d < 10 {
        ((0x30 + d) as u8) as char
    } else {
        ((0x41 + d - 10) as u8) as char
    }
}

/// A byte as it appears in a percent-encoded URL component.
pub open spec fn escaped_byte(b: u8) -> Seq<char> {
    if url_safe(b) {
        seq![b as char]
    } else {
        seq!['%', upper_hex_char((b / 16) as nat), upper_hex_char((b % 16) as nat)]
    }
}

/// Percent-encoding of a byte string: every byte but the safe ones becomes
/// `%` and two upper-case hexadecimal digits.
pub open spec fn percent_encoded(bytes: Seq<u8>) -> Seq<char>
    decreases bytes.len(),
{
    if bytes.len() == 0 {
        Seq::empty()
    } else {
        escaped_byte(bytes[0]) + percent_encoded(bytes.drop_first())
    }
}

/// Relies on urlencoding::encode: each UTF-8 byte of `s` is kept when it is
/// an ASCII alphanumeric or one of `-._~`, and written `%XY` otherwise.
#[verifier::external_body]
fn url_encode(s: &str) -> (r: String)
    ensures
        r@ == percent_encoded(s.spec_bytes()),
{
    urlencoding::encode(s).into_owned()
}

/// The name of a stored file: its id, a dot and its extension.
pub fn file_name(id: &str, extension: &str) -> (r: String)
    ensures
        r@ == id@ + "."@ + extension@,
{
    let mut s = String::new();
    push_text(&mut s, id);
    push_text(&mut s, ".");
    push_text(&mut s, extension);
    assert(s@ =~= id@ + "."@ + extension@);
    s
}

/// The storage path of a converted file: "output/<day>/<file name>".
pub fn blob_path(day: &str, name: &str) -> (r: String)
    ensures
        r@ == "output/"@ + day@ + "/"@ + name@,
{
    let mut s = String::new();
    push_text(&mut s, "output/");
    push_text(&mut s, day);
    push_text(&mut s, "/");
    push_text(&mut s, name);
    assert(s@ =~= "output/"@ + day@ + "/"@ + name@);
    s
}

/// The download link of a stored file: the service base, "/dl/" and the
/// percent-encoded path.
pub fn download_url(base: &str, path: &str) -> (r: String)
    ensures
        r@ == base@ + "/dl/"@ + percent_encoded(path.spec_bytes()),
{
    let encoded = url_encode(path);
    let mut s = String::new();
    push_text(&mut s, base);
    push_text(&mut s, "/dl/");
    push_text(&mut s, encoded.as_str());
    assert(s@ =~= base@ + "/dl/"@ + percent_encoded(path.spec_bytes()));
    s
}

/// The stored name of page `page` of a rasterised PDF:
/// "page_<page, three digits at least>_<id>.jpg".
pub fn page_file_name(page: u32, id: &str) -> (r: String)
    ensures
        r@ == "page_"@ + zero_padded(decimal(page as nat), 3) + "_"@ + id@ + ".jpg"@,
{
    let mut s = String::new();
    push_text(&mut s, "page_");
    push_decimal3(&mut s, page as u64);
    push_text(&mut s, "_");
    push_text(&mut s, id);
    push_text(&mut s, ".jpg");
    assert(s@ =~= "page_"@ + zero_padded(decimal(page as nat), 3) + "_"@ + id@ + ".jpg"@);
    s
}

/// Whether `c` is one of the characters stripped from the end of an upload's
/// name before it is reused: `.`, `j`, `p`, `g`, `J`, `P`, `G`, `n`, `e`, `w`.
pub open spec fn extension_char(c: char) -> bool {
    c == '.' || c == 'j' || c == 'p' || c == 'g' || c == 'J' || c == 'P' || c == 'G' || c == 'n'
        || c == 'e' || c == 'w'
}

fn is_extension_char(c: char) -> (r: bool)
    ensures
        r == extension_char(c),
{
    c == '.' || c == 'j' || c == 'p' || c == 'g' || c == 'J' || c == 'P' || c == 'G' || c == 'n'
        || c == 'e' || c == 'w'
}

/// `s` without the run of `extension_char` characters at its end.
pub open spec fn name_stem(s: Seq<char>) -> Seq<char>
    decreases s.len(),
{
    if s.len() > 0 && extension_char(s.last()) {
        name_stem(s.drop_last())
    } else {
        s
    }
}

proof fn lemma_name_stem(s: Seq<char>, b: int)
    requires
        0 <= b <= s.len(),
        forall|i: int| b <= i < s.len() ==> extension_char(#[trigger] s[i]),
        b == 0 || !extension_char(s[b - 1]),
    ensures
        name_stem(s) == s.subrange(0, b),
    decreases s.len() - b,
{
    if b < s.len() {
        let t = s.drop_last();
        assert forall|i: int| b <= i < t.len() implies extension_char(#[trigger] t[i]) by {
            assert(t[i] == s[i]);
        }
        lemma_name_stem(t, b);
        assert(t.subrange(0, b) =~= s.subrange(0, b));
    } else {
        assert(s.subrange(0, b) =~= s);
    }
}

/// The stored name of a background-removed upload:
/// "nobg_<stem of the upload's name>_<id>.png".
pub fn nobg_file_name(upload_name: &str, id: &str) -> (r: String)
    ensures
        r@ == "nobg_"@ + name_stem(upload_name@) + "_"@ + id@ + ".png"@,
{
    let n = upload_name.unicode_len();
    let mut b: usize = n;
    while b > 0 && is_extension_char(upload_name.get_char(b - 1))
        invariant
            n == upload_name@.len(),
            b <= n,
            forall|i: int| b <= i < n ==> extension_char(#[trigger] upload_name@[i]),
        decreases b,
    {
        b = b - 1;
    }
    proof {
        lemma_name_stem(upload_name@, b as int);
    }
    let stem = upload_name.substring_char(0, b);
    let mut s = String::new();
    push_text(&mut s, "nobg_");
    push_text(&mut s, stem);
    push_text(&mut s, "_");
    push_text(&mut s, id);
    push_text(&mut s, ".png");
    assert(s@ =~= "nobg_"@ + name_stem(upload_name@) + "_"@ + id@ + ".png"@);
    s
}

/// Whole KiB in `len` bytes.
pub fn size_kb(len: usize) -> (r: u64)
    ensures
        r == len as nat / 1024,
{
    (len / 1024) as u64
}

/// The report on one file of a batch.
#[derive(Clone, Debug)]
pub struct BatchItem {
    pub index: usize,
    pub ok: bool,
    pub original_name: Option<String>,
    pub filename: Option<String>,
    pub size_kb: Option<u64>,
    pub download_url: Option<String>,
    pub error: Option<String>,
}

/// The report on a whole batch.
#[derive(Clone, Debug)]
pub struct BatchResp {
    /// Whether at least one file succeeded.
    pub ok: bool,
    pub count: usize,
    pub items: Vec<BatchItem>,
}

impl BatchItem {
    /// A file that failed, with the reason.
    pub fn failed(index: usize, original_name: Option<String>, error: &str) -> (r: BatchItem)
        ensures
            r.index == index,
            !r.ok,
            r.original_name == original_name,
            r.filename is None && r.size_kb is None && r.download_url is None,
            r.error matches Some(e) && e@ == error@,
    {
        BatchItem {
            index,
            ok: false,
            original_name,
            filename: None,
            size_kb: None,
            download_url: None,
            error: Some(error.to_owned()),
        }
    }

    /// A file that was converted and stored.
    pub fn stored(
        index: usize,
        original_name: Option<String>,
        filename: String,
        byte_len: usize,
        download_url: String,
    ) -> (r: BatchItem)
        ensures
            r.index == index,
            r.ok,
            r.original_name == original_name,
            r.filename == Some(filename),
            r.size_kb == Some((byte_len as nat / 1024) as u64),
            r.download_url == Some(download_url),
            r.error is None,
    {
        BatchItem {
            index,
            ok: true,
            original_name,
            filename: Some(filename),
            size_kb: Some(size_kb(byte_len)),
            download_url: Some(download_url),
            error: None,
        }
    }
}

/// The batch report: successful when any file succeeded.
pub fn batch_response(items: Vec<BatchItem>) -> (r: BatchResp)
    ensures
        r.ok == exists|i: int| 0 <= i < items@.len() && #[trigger] items@[i].ok,
        r.count == items@.len(),
        r.items@ == items@,
{
    let mut any = false;
    let mut i: usize = 0;
    while i < items.len()
        invariant
            i <= items@.len(),
            any == exists|j: int| 0 <= j < i && #[trigger] items@[j].ok,
        decreases items@.len() - i,
    {
        if items[i].ok {
            any = true;
        }
        i = i + 1;
    }
    let count = items.len();
    BatchResp { ok: any, count, items }
}

} // verus!
