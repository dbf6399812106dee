//! One conversion unit: request parameters, decoding, geometric
//! normalisation and encoding under the byte budget.

use vstd::prelude::*;
use crate::encode::{Codec, EncodeError, budget_outcome, encode_under_budget, encoded_at_size, fits_codec};
use crate::formats::{is_heic_format, is_pdf_format, looks_like_heic, looks_like_pdf, sane_dim};
use crate::geometry::{Picture, Raster, aspect_cropped, ensure_aspect, resize_if_needed, resized, valid_target};
use crate::presets::{PlatformPreset, lower_of, preset, preset_matches};
use crate::query::{parse_u32_opt, parsed_u32, trimmed};
use crate::text::same_text;

verus! {

/// The query parameters of a conversion request, as text and numbers.
#[derive(Clone, Debug)]
pub struct ConvertQuery {
    pub platform: Option<String>,
    /// Output budget in KiB.
    pub max_kb: Option<u64>,
    /// "webp" (default), "jpeg" or "jpg".
    pub format: Option<String>,
    pub target_w: Option<String>,
    pub target_h: Option<String>,
    /// Upload ceiling per file in MiB.
    pub max_upload_mb: Option<u64>,
    /// Border size in pixels, for background removal.
    pub border: Option<u64>,
    /// Border colour name, for background removal.
    pub border_color: Option<String>,
}

/// What one conversion unit is asked to produce.
#[derive(Clone, Copy, Debug, PartialEq, Eq)]
pub struct EncodingRequest {
    pub target_w: Option<u32>,
    pub target_h: Option<u32>,
    pub codec: Codec,
    pub max_bytes: u64,
    pub upload_ceiling_bytes: u64,
}

/// `a * b`, saturating at `u64::MAX`.
pub open spec fn sat_mul(a: nat, b: nat) -> u64 {
    if a * b > u64::MAX { u64::MAX } else { (a * b) as u64 }
}

fn sat_mul_u64(a: u64, b: u64) -> (r: u64)
    ensures
        r == sat_mul(a as nat, b as nat),
{
    assert((a as u128) * (b as u128) <= 0xffff_ffff_ffff_ffff * 0xffff_ffff_ffff_ffff) by (nonlinear_arith)
        requires a <= 0xffff_ffff_ffff_ffffu64, b <= 0xffff_ffff_ffff_ffffu64;
    let p = a as u128 * b as u128;
    if p > u64::MAX as u128 { u64::MAX } else { p as u64 }
}

/// A dimension clamped to 1..=4096.
pub open spec fn clamped_dim(v: u32) -> u32 {
    if v < 1 { 1 } else if v > 4096 { 4096 } else { v }
}

/// A dimension parameter: blank, absent or not a `u32` numeral gives `None`,
/// any other value is clamped to 1..=4096.
pub open spec fn dim_param(o: Option<String>) -> Option<u32> {
    match o {
        None => None,
        Some(s) => {
            let t = trimmed(s@);
            if t.len() == 0 {
                None
            } else {
                match parsed_u32(t) {
                    Some(v) => Some(clamped_dim(v)),
                    None => None,
                }
            }
        },
    }
}

/// The codec of a format parameter: "jpeg" and "jpg" choose JPEG, anything
/// else WebP.
pub open spec fn codec_param(o: Option<String>) -> Codec {
    match o {
        Some(s) => if s@ == "jpeg"@ || s@ == "jpg"@ { Codec::Jpeg } else { Codec::Webp },
        None => Codec::Webp,
    }
}

/// The request of a single conversion: 2048 KiB and 8 MiB by default.
pub open spec fn request_of(q: ConvertQuery) -> EncodingRequest {
    EncodingRequest {
        target_w: dim_param(q.target_w),
        target_h: dim_param(q.target_h),
        codec: codec_param(q.format),
        max_bytes: sat_mul(
            match q.max_kb {
                Some(k) => k as nat,
                None => 2048,
            },
            1024,
        ),
        upload_ceiling_bytes: sat_mul(
            match q.max_upload_mb {
                Some(m) => m as nat,
                None => 8,
            },
            1024 * 1024,
        ),
    }
}

/// Requested dimensions are at least one.
pub open spec fn request_wf(r: EncodingRequest) -> bool {
    valid_target(r.target_w) && valid_target(r.target_h)
}

fn dim_from(o: &Option<String>) -> (r: Option<u32>)
    ensures
        r == dim_param(*o),
{
    match o {
        None => None,
        Some(s) => match parse_u32_opt(Some(s.as_str())) {
            Some(v) => Some(sane_dim(v)),
            None => None,
        },
    }
}

fn codec_from(o: &Option<String>) -> (r: Codec)
    ensures
        r == codec_param(*o),
{
    match o {
        Some(s) => if same_text(s.as_str(), "jpeg") || same_text(s.as_str(), "jpg") {
            Codec::Jpeg
        } else {
            Codec::Webp
        },
        None => Codec::Webp,
    }
}

/// The request of a single conversion.
pub fn resolve_request(q: &ConvertQuery) -> (r: EncodingRequest)
    ensures
        r == request_of(*q),
        request_wf(r),
{
    let kb = match q.max_kb {
        Some(k) => k,
        None => 2048,
    };
    let mb = match q.max_upload_mb {
        Some(m) => m,
        None => 8,
    };
    EncodingRequest {
        target_w: dim_from(&q.target_w),
        target_h: dim_from(&q.target_h),
        codec: codec_from(&q.format),
        max_bytes: sat_mul_u64(kb, 1024),
        upload_ceiling_bytes: sat_mul_u64(mb, 1024 * 1024),
    }
}

/// The request of a batch conversion: as a single one, except that a
/// marketplace preset, when named, supplies the budget unless `max_kb` is
/// given, and each dimension that the query leaves out.
pub fn resolve_batch_request(q: &ConvertQuery) -> (r: EncodingRequest)
    ensures
        request_wf(r),
        q.platform is None ==> r == request_of(*q),
        q.platform matches Some(p) ==> exists|pr: PlatformPreset|
            #[trigger] preset_matches(lower_of(p@), pr) && r == (EncodingRequest {
                target_w: if dim_param(q.target_w) is Some {
                    dim_param(q.target_w)
                } else {
                    pr.target_w
                },
                target_h: if dim_param(q.target_h) is Some {
                    dim_param(q.target_h)
                } else {
                    pr.target_h
                },
                max_bytes: if q.max_kb is Some {
                    request_of(*q).max_bytes
                } else {
                    pr.max_bytes
                },
                ..request_of(*q)
            }),
{
    let base = resolve_request(q);
    match &q.platform {
        None => base,
        Some(p) => {
            let pr = preset(p.as_str());
            let r = EncodingRequest {
                target_w: if base.target_w.is_some() { base.target_w } else { pr.target_w },
                target_h: if base.target_h.is_some() { base.target_h } else { pr.target_h },
                max_bytes: if q.max_kb.is_some() { base.max_bytes } else { pr.max_bytes },
                ..base
            };
            assert(preset_matches(lower_of(p@), pr));
            r
        },
    }
}

/// The decoded size and RGBA pixels of an encoded image file, if it decodes.
pub uninterp spec fn decoded(data: Seq<u8>) -> Option<(nat, nat, Seq<u8>)>;

/// Relies on image::load_from_memory (format guessed from the bytes) and
/// DynamicImage::to_rgba8: the decoded picture as four bytes per pixel.
#[verifier::external_body]
fn decode_rgba(data: &[u8]) -> (r: Option<Raster>)
    ensures
        r is Some <==> decoded(data@) is Some,
        r matches Some(img) ==> img.wf() && decoded(data@) == Some(
            (img.width as nat, img.height as nat, img.rgba@),
        ),
{
    match image::load_from_memory(data) {
        Ok(img) => {
            let buf = img.to_rgba8();
            let (w, h) = buf.dimensions();
            Some(Raster { width: w, height: h, rgba: buf.into_raw() })
        },
        Err(_) => None,
    }
}

/// Whether the bytes decode to a picture with at least one pixel.
pub open spec fn decodes(data: Seq<u8>) -> bool {
    decoded(data) matches Some((w, h, _)) && w >= 1 && h >= 1
}

/// Why an upload could not be decoded, in words.
pub open spec fn load_error_text(data: Seq<u8>) -> Seq<char> {
    if looks_like_heic(data) {
        "HEIC format detected but not supported. Please convert to JPEG or PNG format first."@
    } else if looks_like_pdf(data) {
        "PDF format detected. Please use /api/convert-pdf endpoint for PDF conversion."@
    } else {
        "Unsupported image format. Supported formats: JPEG, PNG, WebP"@
    }
}

/// Decodes an upload; when it does not decode, says whether it looked like
/// HEIC, like PDF, or like neither.
pub fn load_image_with_heic_support(data: &[u8]) -> (r: Result<Raster, String>)
    ensures
        r is Ok <==> decodes(data@),
        r matches Ok(img) ==> img.nonempty() && decoded(data@) == Some(
            (img.width as nat, img.height as nat, img.rgba@),
        ),
        r matches Err(m) ==> m@ == load_error_text(data@),
{
    if let Some(img) = decode_rgba(data) {
        if img.width >= 1 && img.height >= 1 {
            return Ok(img);
        }
    }
    if is_heic_format(data) {
        return Err(
            "HEIC format detected but not supported. Please convert to JPEG or PNG format first.".to_owned(),
        );
    }
    if is_pdf_format(data) {
        return Err("PDF format detected. Please use /api/convert-pdf endpoint for PDF conversion.".to_owned());
    }
    Err("Unsupported image format. Supported formats: JPEG, PNG, WebP".to_owned())
}

/// The encoded result of one conversion unit.
#[derive(Clone, Debug)]
pub struct Artifact {
    pub bytes: Vec<u8>,
    pub content_type: String,
    /// File extension, without the dot.
    pub extension: String,
    /// Size of the encoded picture.
    pub width: u32,
    pub height: u32,
}

/// The MIME type of a codec's output.
pub open spec fn content_type_of(c: Codec) -> Seq<char> {
    match c {
        Codec::Webp => "image/webp"@,
        Codec::Jpeg => "image/jpeg"@,
    }
}

/// The file extension of a codec's output.
pub open spec fn extension_of(c: Codec) -> Seq<char> {
    match c {
        Codec::Webp => "webp"@,
        Codec::Jpeg => "jpg"@,
    }
}

/// The picture cropped to the ratio of the two targets when `crop` is set
/// and both are given.
pub open spec fn cropped_for(p: Picture, req: EncodingRequest, crop: bool) -> Picture {
    if crop && req.target_w is Some && req.target_h is Some {
        aspect_cropped(p, Some((req.target_w->Some_0, req.target_h->Some_0)))
    } else {
        p
    }
}

/// The picture after normalisation: cropped (see `cropped_for`), then
/// resized towards the targets.
pub open spec fn normalized(p: Picture, req: EncodingRequest, crop: bool) -> Picture {
    resized(cropped_for(p, req, crop), req.target_w, req.target_h)
}

/// Whether the crop left a picture without pixels.
pub open spec fn crop_empty(p: Picture, req: EncodingRequest, crop: bool) -> bool {
    cropped_for(p, req, crop).width == 0 || cropped_for(p, req, crop).height == 0
}

/// Normalises `img` for `req` and encodes it under the request's budget.
/// Fails only when the aspect crop leaves no pixels or when the normalised
/// picture is too large for the codec.
pub fn convert_image(img: &Raster, req: &EncodingRequest, crop: bool) -> (r: Result<Artifact, EncodeError>)
    requires
        img.nonempty(),
        request_wf(*req),
    ensures
        (r == Err::<Artifact, EncodeError>(EncodeError::Empty)) <==> crop_empty(img@, *req, crop),
        (r == Err::<Artifact, EncodeError>(EncodeError::TooLarge)) <==> (!crop_empty(img@, *req, crop)
            && !fits_codec(
            normalized(img@, *req, crop).width,
            normalized(img@, *req, crop).height,
            req.codec,
        )),
        r is Ok <==> (!crop_empty(img@, *req, crop) && fits_codec(
            normalized(img@, *req, crop).width,
            normalized(img@, *req, crop).height,
            req.codec,
        )),
        r matches Ok(a) ==> {
            let n = normalized(img@, *req, crop);
            &&& budget_outcome(n, req.codec, req.max_bytes as nat, a.bytes@)
            &&& a.bytes@.len() > 0
            &&& encoded_at_size(n, req.codec, a.bytes@, a.width as nat, a.height as nat)
            &&& 1 <= a.width <= n.width
            &&& 1 <= a.height <= n.height
            &&& (req.target_w matches Some(tw) ==> a.width <= tw)
            &&& (req.target_h matches Some(th) ==> a.height <= th)
            &&& a.content_type@ == content_type_of(req.codec)
            &&& a.extension@ == extension_of(req.codec)
        },
{
    let cropped = match (req.target_w, req.target_h) {
        (Some(w), Some(h)) => if crop {
            ensure_aspect(img, Some((w, h)))
        } else {
            img.duplicate()
        },
        _ => img.duplicate(),
    };
    if cropped.width == 0 || cropped.height == 0 {
        return Err(EncodeError::Empty);
    }
    let out = resize_if_needed(&cropped, req.target_w, req.target_h);
    let enc = match encode_under_budget(&out, req.codec, req.max_bytes) {
        Ok(e) => e,
        Err(x) => {
            return Err(x);
        },
    };
    let (content_type, extension) = match req.codec {
        Codec::Webp => ("image/webp".to_owned(), "webp".to_owned()),
        Codec::Jpeg => ("image/jpeg".to_owned(), "jpg".to_owned()),
    };
    Ok(Artifact { bytes: enc.bytes, content_type, extension, width: enc.width, height: enc.height })
}

/// Whether an upload of `len` bytes is within the request's ceiling.
pub fn upload_within_ceiling(len: usize, req: &EncodingRequest) -> (r: bool)
    ensures
        r == (len as nat <= req.upload_ceiling_bytes as nat),
{
    len as u64 <= req.upload_ceiling_bytes
}

} // verus!
