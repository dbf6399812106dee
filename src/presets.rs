//! Marketplace presets: output budget, target size, aspect and format.

use vstd::prelude::*;
use crate::text::same_text;

verus! {

/// Output settings of a marketplace.
#[derive(Clone, Debug)]
pub struct PlatformPreset {
    pub max_bytes: u64,
    pub target_w: Option<u32>,
    pub target_h: Option<u32>,
    /// Aspect ratio to crop to, as width:height.
    pub aspect: Option<(u32, u32)>,
    /// "webp" or "jpeg".
    pub format: String,
}

/// The characters of `s` in lower case.
pub uninterp spec fn lower_of(s: Seq<char>) -> Seq<char>;

/// Relies on str::to_lowercase: the result depends on the characters alone.
#[verifier::external_body]
fn lowercase(s: &str) -> (r: String)
    ensures
        r@ == lower_of(s@),
{
    s.to_lowercase()
}

/// Whether preset `p` has the given numbers and the format "webp".
pub open spec fn preset_is(
    p: PlatformPreset,
    max_bytes: nat,
    target_w: Option<u32>,
    target_h: Option<u32>,
    aspect: Option<(u32, u32)>,
) -> bool {
    &&& p.max_bytes == max_bytes
    &&& p.target_w == target_w
    &&& p.target_h == target_h
    &&& p.aspect == aspect
    &&& p.format@ == "webp"@
}

/// The preset of an already lower-cased marketplace key: "shopee" is 2 MiB
/// at 1024 by 1024 cropped to 1:1, "lazada" 3 MiB at 1200 by 1600 without
/// cropping, and any other key 2 MiB at the source size.
pub open spec fn preset_matches(key: Seq<char>, p: PlatformPreset) -> bool {
    if key == "shopee"@ {
        preset_is(p, 2 * 1024 * 1024, Some(1024u32), Some(1024u32), Some((1u32, 1u32)))
    } else if key == "lazada"@ {
        preset_is(p, 3 * 1024 * 1024, Some(1200u32), Some(1600u32), None)
    } else {
        preset_is(p, 2 * 1024 * 1024, None, None, None)
    }
}

/// The preset of a lower-case marketplace key.
pub fn preset_for_key(key: &str) -> (r: PlatformPreset)
    ensures
        preset_matches(key@, r),
{
    let format = "webp".to_owned();
    if same_text(key, "shopee") {
        PlatformPreset {
            max_bytes: 2 * 1024 * 1024,
            target_w: Some(1024),
            target_h: Some(1024),
            aspect: Some((1, 1)),
            format,
        }
    } else if same_text(key, "lazada") {
        PlatformPreset {
            max_bytes: 3 * 1024 * 1024,
            target_w: Some(1200),
            target_h: Some(1600),
            aspect: None,
            format,
        }
    } else {
        PlatformPreset { max_bytes: 2 * 1024 * 1024, target_w: None, target_h: None, aspect: None, format }
    }
}

/// The preset of a marketplace name, in any letter case.
pub fn preset(name: &str) -> (r: PlatformPreset)
    ensures
        preset_matches(lower_of(name@), r),
{
    let key = lowercase(name);
    preset_for_key(key.as_str())
}

} // verus!
