//! Encoding under a byte budget: a greedy search over a quality ladder and a
//! shrinking scale, for WebP and JPEG.

use vstd::prelude::*;
use crate::geometry::{Picture, Raster, Resampling, lemma_smaller_fits, resample, resampled};

verus! {

/// Output codec.
#[derive(Clone, Copy, Debug, PartialEq, Eq)]
pub enum Codec {
    Webp,
    Jpeg,
}

/// Why an encode did not produce bytes.
#[derive(Clone, Copy, Debug, PartialEq, Eq)]
pub enum EncodeError {
    /// A side of the picture exceeds what the codec can represent.
    TooLarge,
    /// The picture has no pixels (an aspect crop rounded a side to zero).
    Empty,
}

/// Encoded bytes and the size of the picture they encode.
#[derive(Debug)]
pub struct Encoded {
    pub bytes: Vec<u8>,
    pub width: u32,
    pub height: u32,
}

/// No candidate's side is scaled below this many pixels.
pub const MIN_EDGE: u32 = 320;

/// The scale starts at this many parts per million (1.0).
pub const FULL_SCALE: u64 = 1_000_000;

/// Number of rungs of each quality ladder.
pub const QUALITY_STEPS: usize = 8;

/// The `i`-th rung of the codec's ascending quality ladder.
pub open spec fn quality(codec: Codec, i: int) -> u8 {
    match codec {
        Codec::Webp => if i == 0 { 35 } else if i == 1 { 40 } else if i == 2 { 45 } else if i == 3 {
            50
        } else if i == 4 { 55 } else if i == 5 { 60 } else if i == 6 { 70 } else { 80 },
        Codec::Jpeg => if i == 0 { 40 } else if i == 1 { 45 } else if i == 2 { 50 } else if i == 3 {
            55
        } else if i == 4 { 60 } else if i == 5 { 70 } else if i == 6 { 80 } else { 90 },
    }
}

/// The largest side each codec accepts.
pub open spec fn max_side(codec: Codec) -> u32 {
    match codec {
        Codec::Webp => 16383,
        Codec::Jpeg => 65535,
    }
}

/// The lossy WebP encoding of an RGBA raster at a quality.
pub uninterp spec fn webp_lossy(rgba: Seq<u8>, w: nat, h: nat, quality: nat) -> Seq<u8>;

/// The baseline JPEG encoding of an RGB raster at a quality.
pub uninterp spec fn jpeg_baseline(rgb: Seq<u8>, w: nat, h: nat, quality: nat) -> Seq<u8>;

/// An RGBA buffer with the alpha byte of each pixel dropped.
pub open spec fn rgb_of(rgba: Seq<u8>) -> Seq<u8> {
    Seq::new((rgba.len() / 4) * 3, |k: int| rgba[(k / 3) * 4 + k % 3])
}

/// Relies on webp::Encoder::from_rgba and Encoder::encode (lossy; the crate
/// unwraps the encoder's status, and libwebp accepts qualities 0 to 100):
/// the bytes depend only on the pixels, the dimensions and the quality, and
/// begin with a RIFF header.
#[verifier::external_body]
fn webp_encode(rgba: &Vec<u8>, w: u32, h: u32, q: u8) -> (r: Vec<u8>)
    requires
        rgba@.len() == 4 * (w as int) * (h as int),
        1 <= w <= 16383,
        1 <= h <= 16383,
        q <= 100,
    ensures
        r@ == webp_lossy(rgba@, w as nat, h as nat, q as nat),
        r@.len() > 0,
{
    webp::Encoder::from_rgba(rgba, w, h).encode(q.into()).to_vec()
}

/// Relies on image::codecs::jpeg::JpegEncoder (with a quality) encoding an
/// RGB buffer into memory, which fails only for a side of 0 or above 65535:
/// the bytes depend only on the pixels, dimensions and quality, and begin
/// with the start-of-image marker.
#[verifier::external_body]
fn jpeg_encode(rgb: &Vec<u8>, w: u32, h: u32, q: u8) -> (r: Vec<u8>)
    requires
        rgb@.len() == 3 * (w as int) * (h as int),
        1 <= w <= 65535,
        1 <= h <= 65535,
    ensures
        r@ == jpeg_baseline(rgb@, w as nat, h as nat, q as nat),
        r@.len() > 0,
{
    let mut out: Vec<u8> = Vec::new();
    image::codecs::jpeg::JpegEncoder::new_with_quality(&mut out, q)
        .encode(rgb, w, h, image::ExtendedColorType::Rgb8)
        .expect("in-memory JPEG encoding of a picture of valid size");
    out
}

/// The RGB bytes of an RGBA buffer.
fn drop_alpha(rgba: &Vec<u8>) -> (r: Vec<u8>)
    ensures
        r@ == rgb_of(rgba@),
{
    let len = rgba.len();
    let n = len / 4;
    let mut out: Vec<u8> = Vec::with_capacity(n);
    let mut p: usize = 0;
    while p < n
        invariant
            len == rgba@.len(),
            n == len / 4,
            p <= n,
            out@.len() == 3 * p,
            forall|k: int| 0 <= k < 3 * p ==> #[trigger] out@[k] == rgba@[(k / 3) * 4 + k % 3],
        decreases n - p,
    {
        let base = 4 * p;
        out.push(rgba[base]);
        out.push(rgba[base + 1]);
        out.push(rgba[base + 2]);
        assert forall|k: int| 0 <= k < 3 * (p + 1) implies #[trigger] out@[k] == rgba@[(k / 3)
            * 4 + k % 3] by {
            if k >= 3 * p {
                assert(k / 3 == p as int);
            }
        }
        p = p + 1;
    }
    assert(out@ =~= rgb_of(rgba@));
    out
}

/// The bytes of one codec at one quality for an RGBA raster.
pub open spec fn codec_bytes(codec: Codec, rgba: Seq<u8>, w: nat, h: nat, q: u8) -> Seq<u8> {
    match codec {
        Codec::Webp => webp_lossy(rgba, w, h, q as nat),
        Codec::Jpeg => jpeg_baseline(rgb_of(rgba), w, h, q as nat),
    }
}

/// Encodes an RGBA raster with one codec at one quality.
fn encode_once(codec: Codec, rgba: &Vec<u8>, w: u32, h: u32, q: u8) -> (r: Vec<u8>)
    requires
        q <= 100,
        rgba@.len() == 4 * (w as int) * (h as int),
        1 <= w <= max_side(codec),
        1 <= h <= max_side(codec),
    ensures
        r@ == codec_bytes(codec, rgba@, w as nat, h as nat, q),
        r@.len() > 0,
{
    match codec {
        Codec::Webp => webp_encode(rgba, w, h, q),
        Codec::Jpeg => {
            let rgb = drop_alpha(rgba);
            assert(rgb@.len() == 3 * (w as int) * (h as int)) by (nonlinear_arith)
                requires
                    rgb@.len() == (rgba@.len() / 4) * 3,
                    rgba@.len() == 4 * (w as int) * (h as int);
            jpeg_encode(&rgb, w, h, q)
        },
    }
}


/// The `i`-th rung of the quality ladder.
fn quality_at(codec: Codec, i: usize) -> (q: u8)
    ensures
        q == quality(codec, i as int),
        q <= 90,
{
    match codec {
        Codec::Webp => if i == 0 { 35 } else if i == 1 { 40 } else if i == 2 { 45 } else if i == 3 {
            50
        } else if i == 4 { 55 } else if i == 5 { 60 } else if i == 6 { 70 } else { 80 },
        Codec::Jpeg => if i == 0 { 40 } else if i == 1 { 45 } else if i == 2 { 50 } else if i == 3 {
            55
        } else if i == 4 { 60 } else if i == 5 { 70 } else if i == 6 { 80 } else { 90 },
    }
}

/// The scale after `k` shrinking steps of 85%, in parts per million.
pub open spec fn scale_ppm(k: nat) -> nat
    decreases k,
{
    if k == 0 {
        FULL_SCALE as nat
    } else {
        scale_ppm((k - 1) as nat) * 85 / 100
    }
}

/// A side of `dim` pixels at the scale of step `k`, rounded to the nearest pixel.
pub open spec fn scaled(dim: nat, k: nat) -> nat {
    (dim * scale_ppm(k) + 500_000) / 1_000_000
}

/// Whether the search reaches scale step `k`: every step up to it keeps both
/// sides above the minimum edge.
pub open spec fn step_reached(w: nat, h: nat, k: nat) -> bool {
    forall|j: nat| 1 <= j <= k ==> #[trigger] scaled(w, j) > MIN_EDGE && scaled(h, j) > MIN_EDGE
}

/// A side raised to the minimum edge.
pub open spec fn floored_edge(v: nat) -> nat {
    if v < MIN_EDGE { MIN_EDGE as nat } else { v }
}

/// The width and height of the candidate at step `k`.
pub open spec fn candidate_dims(w: nat, h: nat, k: nat) -> (nat, nat) {
    if k == 0 {
        (w, h)
    } else {
        (floored_edge(scaled(w, k)), floored_edge(scaled(h, k)))
    }
}

/// The pixels of the candidate at step `k`: the picture itself, then
/// triangle-filtered reductions of it.
pub open spec fn candidate_pixels(img: Picture, k: nat) -> Seq<u8> {
    let (cw, ch) = candidate_dims(img.width, img.height, k);
    if k == 0 {
        img.pixels
    } else {
        resampled(img.pixels, img.width, img.height, cw, ch, false)
    }
}

/// The bytes of the trial at scale step `k` and ladder rung `i`.
pub open spec fn trial(img: Picture, codec: Codec, k: nat, i: int) -> Seq<u8> {
    let (cw, ch) = candidate_dims(img.width, img.height, k);
    codec_bytes(codec, candidate_pixels(img, k), cw, ch, quality(codec, i))
}

/// Every trial before `(k, i)`, in search order, exceeds the budget.
pub open spec fn over_budget_before(img: Picture, codec: Codec, max: nat, k: nat, i: int) -> bool {
    forall|k2: nat, i2: int|
        ((k2 < k && 0 <= i2 < QUALITY_STEPS) || (k2 == k && 0 <= i2 < i)) ==> #[trigger] trial(
            img,
            codec,
            k2,
            i2,
        ).len() > max
}

/// What the search returns: the first trial, in order of scale step and then
/// ascending quality, that fits the budget; when no trial up to the last
/// reached step fits, the lowest-quality trial of that step.
pub open spec fn budget_outcome(img: Picture, codec: Codec, max: nat, out: Seq<u8>) -> bool {
    let (w, h) = (img.width, img.height);
    ||| exists|k: nat, i: int|
        step_reached(w, h, k) && 0 <= i < QUALITY_STEPS && over_budget_before(img, codec, max, k, i)
            && #[trigger] trial(img, codec, k, i).len() <= max && out == trial(img, codec, k, i)
    ||| exists|k: nat|
        step_reached(w, h, k) && !step_reached(w, h, k + 1) && over_budget_before(
            img,
            codec,
            max,
            k,
            QUALITY_STEPS as int,
        ) && out == #[trigger] trial(img, codec, k, 0)
}

proof fn lemma_scale_at_most_full(k: nat)
    ensures
        scale_ppm(k) <= FULL_SCALE,
    decreases k,
{
    if k > 0 {
        lemma_scale_at_most_full((k - 1) as nat);
    }
}

proof fn lemma_scaled_at_most(dim: nat, k: nat)
    ensures
        scaled(dim, k) <= dim,
{
    lemma_scale_at_most_full(k);
    let s = scale_ppm(k);
    assert(dim * s <= dim * 1_000_000) by (nonlinear_arith)
        requires s <= 1_000_000;
    assert((dim * s + 500_000) / 1_000_000 <= dim) by (nonlinear_arith)
        requires dim * s <= dim * 1_000_000;
}

/// Steps reached form a prefix: a reached step lies at or before any step
/// whose successor is not reached.
proof fn lemma_reached_prefix(w: nat, h: nat, k: nat, last: nat)
    requires
        step_reached(w, h, k),
        !step_reached(w, h, last + 1),
    ensures
        k <= last,
{
    if k > last {
        assert forall|j: nat| 1 <= j <= last + 1 implies #[trigger] scaled(w, j) > MIN_EDGE
            && scaled(h, j) > MIN_EDGE by {}
    }
}

/// The budget is met whenever it can be: if some quality at some scale step
/// that the search reaches (both sides above the minimum edge) fits within
/// `max` bytes, the search's output fits too.
pub proof fn budget_met_when_reachable(
    img: Picture,
    codec: Codec,
    max: nat,
    out: Seq<u8>,
    k: nat,
    i: int,
)
    requires
        budget_outcome(img, codec, max, out),
        step_reached(img.width, img.height, k),
        0 <= i < QUALITY_STEPS,
        trial(img, codec, k, i).len() <= max,
    ensures
        out.len() <= max,
{
    let (w, h) = (img.width, img.height);
    if !(exists|k1: nat, i1: int|
        step_reached(w, h, k1) && 0 <= i1 < QUALITY_STEPS && over_budget_before(
            img,
            codec,
            max,
            k1,
            i1,
        ) && #[trigger] trial(img, codec, k1, i1).len() <= max && out == trial(img, codec, k1, i1)) {
        let last = choose|last: nat|
            step_reached(w, h, last) && !step_reached(w, h, last + 1) && over_budget_before(
                img,
                codec,
                max,
                last,
                QUALITY_STEPS as int,
            ) && out == #[trigger] trial(img, codec, last, 0);
        lemma_reached_prefix(w, h, k, last);
        assert(trial(img, codec, k, i).len() > max);
    }
}

/// Otherwise the output is the lowest-quality encoding at the final scale
/// reached, so it is no larger than that encoding.
pub proof fn budget_fallback_is_last_floor(img: Picture, codec: Codec, max: nat, out: Seq<u8>, last: nat)
    requires
        budget_outcome(img, codec, max, out),
        step_reached(img.width, img.height, last),
        !step_reached(img.width, img.height, last + 1),
        forall|k: nat, i: int|
            k <= last && 0 <= i < QUALITY_STEPS ==> #[trigger] trial(img, codec, k, i).len() > max,
    ensures
        out == trial(img, codec, last, 0),
        out.len() <= trial(img, codec, last, 0).len(),
{
    let (w, h) = (img.width, img.height);
    if exists|k1: nat, i1: int|
        step_reached(w, h, k1) && 0 <= i1 < QUALITY_STEPS && over_budget_before(
            img,
            codec,
            max,
            k1,
            i1,
        ) && #[trigger] trial(img, codec, k1, i1).len() <= max && out == trial(img, codec, k1, i1) {
        let (k1, i1) = choose|k1: nat, i1: int|
            step_reached(w, h, k1) && 0 <= i1 < QUALITY_STEPS && over_budget_before(
                img,
                codec,
                max,
                k1,
                i1,
            ) && #[trigger] trial(img, codec, k1, i1).len() <= max && out == trial(
                img,
                codec,
                k1,
                i1,
            );
        lemma_reached_prefix(w, h, k1, last);
        assert(trial(img, codec, k1, i1).len() > max);
    } else {
        let k2 = choose|k2: nat|
            step_reached(w, h, k2) && !step_reached(w, h, k2 + 1) && over_budget_before(
                img,
                codec,
                max,
                k2,
                QUALITY_STEPS as int,
            ) && out == #[trigger] trial(img, codec, k2, 0);
        lemma_reached_prefix(w, h, k2, last);
        lemma_reached_prefix(w, h, last, k2);
    }
}


/// A larger budget is never worse: when the search meets budget `max1`, it
/// meets every larger budget `max2` as well.
pub proof fn larger_budget_still_met(
    img: Picture,
    codec: Codec,
    max1: nat,
    out1: Seq<u8>,
    max2: nat,
    out2: Seq<u8>,
)
    requires
        budget_outcome(img, codec, max1, out1),
        out1.len() <= max1,
        max1 <= max2,
        budget_outcome(img, codec, max2, out2),
    ensures
        out2.len() <= max2,
{
    let (w, h) = (img.width, img.height);
    if exists|k: nat, i: int|
        step_reached(w, h, k) && 0 <= i < QUALITY_STEPS && over_budget_before(img, codec, max1, k, i)
            && #[trigger] trial(img, codec, k, i).len() <= max1 && out1 == trial(img, codec, k, i) {
        let (k, i) = choose|k: nat, i: int|
            step_reached(w, h, k) && 0 <= i < QUALITY_STEPS && over_budget_before(
                img,
                codec,
                max1,
                k,
                i,
            ) && #[trigger] trial(img, codec, k, i).len() <= max1 && out1 == trial(img, codec, k, i);
        budget_met_when_reachable(img, codec, max2, out2, k, i);
    } else {
        let k = choose|k: nat|
            step_reached(w, h, k) && !step_reached(w, h, k + 1) && over_budget_before(
                img,
                codec,
                max1,
                k,
                QUALITY_STEPS as int,
            ) && out1 == #[trigger] trial(img, codec, k, 0);
        budget_met_when_reachable(img, codec, max2, out2, k, 0);
    }
}

/// `out` is the trial at some reached scale step, whose candidate is `ow` by `oh`.
pub open spec fn encoded_at_size(img: Picture, codec: Codec, out: Seq<u8>, ow: nat, oh: nat) -> bool {
    exists|k: nat, i: int|
        step_reached(img.width, img.height, k) && 0 <= i < QUALITY_STEPS && #[trigger] trial(
            img,
            codec,
            k,
            i,
        ) == out && candidate_dims(img.width, img.height, k) == (ow, oh)
}

/// Whether both sides are within what the codec accepts.
pub open spec fn fits_codec(w: nat, h: nat, codec: Codec) -> bool {
    w <= max_side(codec) && h <= max_side(codec)
}

/// Encodes `img` with `codec` so that the bytes fit within `max_bytes` when
/// the search can make them: the quality ladder is tried in ascending order
/// at each scale, and the scale shrinks by 85% while both sides stay above
/// the minimum edge. When nothing fits, the lowest-quality encoding at the
/// last scale is returned although it is over the budget. Fails only when a
/// side exceeds what the codec accepts.
pub fn encode_under_budget(img: &Raster, codec: Codec, max_bytes: u64) -> (r: Result<
    Encoded,
    EncodeError,
>)
    requires
        img.nonempty(),
    ensures
        r is Ok <==> fits_codec(img.width as nat, img.height as nat, codec),
        r is Err ==> r == Err::<Encoded, EncodeError>(EncodeError::TooLarge),
        r matches Ok(e) ==> {
            &&& budget_outcome(img@, codec, max_bytes as nat, e.bytes@)
            &&& e.bytes@.len() > 0
            &&& encoded_at_size(img@, codec, e.bytes@, e.width as nat, e.height as nat)
            &&& 1 <= e.width <= img.width
            &&& 1 <= e.height <= img.height
        },
{
    let limit: u32 = match codec {
        Codec::Webp => 16383,
        Codec::Jpeg => 65535,
    };
    if img.width > limit || img.height > limit {
        return Err(EncodeError::TooLarge);
    }
    let len = img.rgba.len();
    let w = img.width as u64;
    let h = img.height as u64;
    let ghost gw: nat = img.width as nat;
    let ghost gh: nat = img.height as nat;
    let mut scale: u64 = FULL_SCALE;
    let ghost mut k: nat = 0;
    let mut candidate = img.duplicate();
    loop
        invariant
            len == img.rgba@.len(),
            img.nonempty(),
            limit == max_side(codec),
            img.width <= limit,
            img.height <= limit,
            w == gw,
            h == gh,
            gw == img.width,
            gh == img.height,
            scale == scale_ppm(k),
            step_reached(gw, gh, k),
            candidate.nonempty(),
            candidate.width <= img.width,
            candidate.height <= img.height,
            (candidate.width as nat, candidate.height as nat) == candidate_dims(gw, gh, k),
            candidate.rgba@ == candidate_pixels(img@, k),
            over_budget_before(img@, codec, max_bytes as nat, k, 0),
        decreases scale,
    {
        let mut i: usize = 0;
        while i < QUALITY_STEPS
            invariant
                0 <= i <= QUALITY_STEPS,
                len == img.rgba@.len(),
                img.nonempty(),
                img.width <= limit,
                img.height <= limit,
                w == gw,
                h == gh,
                scale == scale_ppm(k),
                candidate.nonempty(),
                candidate.width <= img.width,
                candidate.height <= img.height,
                limit == max_side(codec),
                (candidate.width as nat, candidate.height as nat) == candidate_dims(gw, gh, k),
                candidate.rgba@ == candidate_pixels(img@, k),
                step_reached(gw, gh, k),
                gw == img.width,
                gh == img.height,
                over_budget_before(img@, codec, max_bytes as nat, k, i as int),
            decreases QUALITY_STEPS - i,
        {
            let q = quality_at(codec, i);
            let b = encode_once(codec, &candidate.rgba, candidate.width, candidate.height, q);
            if b.len() as u64 <= max_bytes {
                assert(b@ == trial(img@, codec, k, i as int));
                let e = Encoded { bytes: b, width: candidate.width, height: candidate.height };
                assert(encoded_at_size(img@, codec, e.bytes@, e.width as nat, e.height as nat));
                return Ok(e);
            }
            assert(trial(img@, codec, k, i as int).len() > max_bytes);
            i = i + 1;
        }
        proof {
            lemma_scale_at_most_full(k);
        }
        let next = scale * 85 / 100;
        assert(w * next <= 65535 * 1_000_000 && h * next <= 65535 * 1_000_000) by (nonlinear_arith)
            requires w <= 65535, h <= 65535, next <= 1_000_000;
        let nw = (w * next + 500_000) / 1_000_000;
        let nh = (h * next + 500_000) / 1_000_000;
        assert(next == scale_ppm(k + 1));
        assert(nw == scaled(gw, k + 1) && nh == scaled(gh, k + 1));
        if nw <= MIN_EDGE as u64 || nh <= MIN_EDGE as u64 {
            assert(!(scaled(gw, k + 1) > MIN_EDGE && scaled(gh, k + 1) > MIN_EDGE));
            assert(!step_reached(gw, gh, k + 1));
            let q = quality_at(codec, 0);
            let b = encode_once(codec, &candidate.rgba, candidate.width, candidate.height, q);
            assert(b@ == trial(img@, codec, k, 0));
            let e = Encoded { bytes: b, width: candidate.width, height: candidate.height };
            assert(encoded_at_size(img@, codec, e.bytes@, e.width as nat, e.height as nat));
            return Ok(e);
        }
        proof {
            lemma_scaled_at_most(gw, k + 1);
            lemma_scaled_at_most(gh, k + 1);
            lemma_smaller_fits(gw as int, gh as int, nw as int, nh as int);
            assert forall|j: nat| 1 <= j <= k + 1 implies #[trigger] scaled(gw, j) > MIN_EDGE
                && scaled(gh, j) > MIN_EDGE by {
                if j <= k {
                    assert(step_reached(gw, gh, k));
                }
            }
        }
        candidate = resample(img, nw as u32, nh as u32, Resampling::Triangle);
        scale = next;
        proof {
            k = k + 1;
        }
    }
}

/// WebP under a byte budget (see `encode_under_budget`): fails only for a
/// side above 16383.
pub fn encode_webp_under(img: &Raster, max_bytes: u64) -> (r: Result<Vec<u8>, EncodeError>)
    requires
        img.nonempty(),
    ensures
        r is Ok <==> (img.width <= 16383 && img.height <= 16383),
        r is Err ==> r == Err::<Vec<u8>, EncodeError>(EncodeError::TooLarge),
        r matches Ok(b) ==> budget_outcome(img@, Codec::Webp, max_bytes as nat, b@) && b@.len() > 0,
{
    match encode_under_budget(img, Codec::Webp, max_bytes) {
        Ok(e) => Ok(e.bytes),
        Err(x) => Err(x),
    }
}

/// JPEG under a byte budget (see `encode_under_budget`): fails only for a
/// side above 65535.
pub fn encode_jpeg_under(img: &Raster, max_bytes: u64) -> (r: Result<Vec<u8>, EncodeError>)
    requires
        img.nonempty(),
    ensures
        r is Ok <==> (img.width <= 65535 && img.height <= 65535),
        r is Err ==> r == Err::<Vec<u8>, EncodeError>(EncodeError::TooLarge),
        r matches Ok(b) ==> budget_outcome(img@, Codec::Jpeg, max_bytes as nat, b@) && b@.len() > 0,
{
    match encode_under_budget(img, Codec::Jpeg, max_bytes) {
        Ok(e) => Ok(e.bytes),
        Err(x) => Err(x),
    }
}

} // verus!
