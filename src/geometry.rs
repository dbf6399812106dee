//! Aspect cropping and non-enlarging resizing of RGBA rasters.

use vstd::prelude::*;

verus! {

/// A decoded picture: four bytes (red, green, blue, alpha) per pixel, row by row.
#[derive(Debug)]
pub struct Raster {
    pub width: u32,
    pub height: u32,
    pub rgba: Vec<u8>,
}

/// A picture as mathematics sees it: its size and its RGBA bytes.
pub struct Picture {
    pub width: nat,
    pub height: nat,
    pub pixels: Seq<u8>,
}

impl View for Raster {
    type V = Picture;

    open spec fn view(&self) -> Picture {
        Picture { width: self.width as nat, height: self.height as nat, pixels: self.rgba@ }
    }
}

impl Raster {
    /// The buffer holds exactly one RGBA quadruple per pixel.
    pub open spec fn wf(&self) -> bool {
        self.rgba@.len() == 4 * (self.width as int) * (self.height as int)
    }

    /// A well-formed raster that has at least one pixel.
    pub open spec fn nonempty(&self) -> bool {
        self.wf() && self.width >= 1 && self.height >= 1
    }

    /// Builds a raster from its dimensions and RGBA bytes; `None` when the
    /// buffer length does not match the dimensions.
    pub fn from_rgba(width: u32, height: u32, rgba: Vec<u8>) -> (r: Option<Raster>)
        ensures
            r is Some <==> rgba@.len() == 4 * (width as int) * (height as int),
            r matches Some(p) ==> p.width == width && p.height == height && p.rgba@ == rgba@,
    {
        let w = width as u64;
        let h = height as u64;
        assert(w * h <= 0xffff_ffff * 0xffff_ffff) by (nonlinear_arith)
            requires w <= 0xffff_ffff, h <= 0xffff_ffff;
        let n = w * h;
        assert(4 * (width as int) * (height as int) == 4 * (n as int)) by (nonlinear_arith)
            requires n == w * h, w == width, h == height;
        let len = rgba.len();
        if n > (usize::MAX as u64) / 4 {
            return None;
        }
        if len as u64 != 4 * n {
            return None;
        }
        Some(Raster { width, height, rgba })
    }

    /// A copy of this raster.
    pub fn duplicate(&self) -> (r: Raster)
        ensures
            r.width == self.width,
            r.height == self.height,
            r.rgba@ == self.rgba@,
    {
        Raster { width: self.width, height: self.height, rgba: self.rgba.clone() }
    }
}

/// Which resampling kernel a resize uses.
#[derive(Clone, Copy, Debug, PartialEq, Eq)]
pub enum Resampling {
    /// Lanczos window of three lobes: sharp downscaling.
    Lanczos3,
    /// Linear (triangle) kernel: cheap downscaling.
    Triangle,
}

/// The pixels of an `rgba` raster of `w` by `h` resampled to `nw` by `nh`
/// with the given kernel (`lanczos` true for Lanczos3, false for triangle).
pub uninterp spec fn resampled(rgba: Seq<u8>, w: nat, h: nat, nw: nat, nh: nat, lanczos: bool) -> Seq<u8>;

/// The pixels of the window of `cw` by `ch` at `(x, y)` in an RGBA raster of width `w`.
pub open spec fn window(src: Seq<u8>, w: nat, x: nat, y: nat, cw: nat, ch: nat) -> Seq<u8> {
    Seq::new(
        4 * cw * ch,
        |k: int| src[4 * ((y + (k / 4) / (cw as int)) * w + x + (k / 4) % (cw as int)) + k % 4],
    )
}

/// Relies on image::imageops::crop_imm (turned into an owned buffer): the
/// window is copied pixel for pixel when it lies inside the source.
#[verifier::external_body]
fn crop_pixels(src: &Raster, x: u32, y: u32, cw: u32, ch: u32) -> (r: Raster)
    requires
        src.wf(),
        x as int + cw as int <= src.width as int,
        y as int + ch as int <= src.height as int,
    ensures
        r.wf(),
        r.width == cw,
        r.height == ch,
        r.rgba@ == window(src.rgba@, src.width as nat, x as nat, y as nat, cw as nat, ch as nat),
{
    let buf = image::RgbaImage::from_raw(src.width, src.height, src.rgba.clone()).unwrap();
    let part = image::imageops::crop_imm(&buf, x, y, cw, ch).to_image();
    Raster { width: cw, height: ch, rgba: part.into_raw() }
}

/// Whether the kernel is Lanczos3.
pub open spec fn is_lanczos(f: Resampling) -> bool {
    f == Resampling::Lanczos3
}

/// Relies on image::imageops::resize: the result has exactly the requested
/// dimensions and depends only on the source pixels, sizes and kernel.
#[verifier::external_body]
pub(crate) fn resample(src: &Raster, nw: u32, nh: u32, filter: Resampling) -> (r: Raster)
    requires
        src.nonempty(),
        nw >= 1,
        nh >= 1,
        4 * (nw as int) * (nh as int) <= usize::MAX,
    ensures
        r.wf(),
        r.width == nw,
        r.height == nh,
        r.rgba@ == resampled(
            src.rgba@,
            src.width as nat,
            src.height as nat,
            nw as nat,
            nh as nat,
            is_lanczos(filter),
        ),
{
    let buf = image::RgbaImage::from_raw(src.width, src.height, src.rgba.clone()).unwrap();
    let kernel = match filter {
        Resampling::Lanczos3 => image::imageops::FilterType::Lanczos3,
        Resampling::Triangle => image::imageops::FilterType::Triangle,
    };
    let out = image::imageops::resize(&buf, nw, nh, kernel);
    Raster { width: nw, height: nh, rgba: out.into_raw() }
}


/// `a / b` rounded to the nearest integer, halves up (for `a >= 0`, `b > 0`).
pub open spec fn round_div(a: int, b: int) -> int {
    (2 * a + b) / (2 * b)
}

/// At least one.
pub open spec fn at_least_one(v: int) -> int {
    if v < 1 { 1 } else { v }
}

/// The smaller of two integers.
pub open spec fn min_int(a: int, b: int) -> int {
    if a < b { a } else { b }
}

/// Whether the ratio `w / h` differs from `aw / ah` by more than one hundredth.
pub open spec fn ratio_differs(w: int, h: int, aw: int, ah: int) -> bool {
    100 * (w * ah - aw * h) > h * ah || 100 * (aw * h - w * ah) > h * ah
}

/// The centred window `(x, y, width, height)` of a `w` by `h` picture that has
/// the ratio `aw:ah`: the wider axis is cut equally on both sides.
pub open spec fn aspect_window(w: int, h: int, aw: int, ah: int) -> (int, int, int, int) {
    if !ratio_differs(w, h, aw, ah) {
        (0, 0, w, h)
    } else if w * ah > aw * h {
        let cw = round_div(h * aw, ah);
        ((w - cw) / 2, 0, cw, h)
    } else {
        let ch = round_div(w * ah, aw);
        (0, (h - ch) / 2, w, ch)
    }
}

/// A requested aspect ratio has both terms positive.
pub open spec fn valid_aspect(want: Option<(u32, u32)>) -> bool {
    want matches Some((aw, ah)) ==> aw >= 1 && ah >= 1
}

/// A requested dimension, if present, is positive.
pub open spec fn valid_target(t: Option<u32>) -> bool {
    t matches Some(v) ==> v >= 1
}

/// The dimensions that a resize of a `w` by `h` picture to the optional
/// targets produces: each target is first clamped to the source dimension;
/// with one target the other side follows proportionally.
pub open spec fn target_dims(w: int, h: int, tw: Option<u32>, th: Option<u32>) -> (int, int) {
    match (tw, th) {
        (Some(a), Some(b)) => (min_int(a as int, w), min_int(b as int, h)),
        (Some(a), None) => {
            let nw = min_int(a as int, w);
            if nw == w { (w, h) } else { (nw, at_least_one(round_div(h * nw, w))) }
        },
        (None, Some(b)) => {
            let nh = min_int(b as int, h);
            if nh == h { (w, h) } else { (at_least_one(round_div(w * nh, h)), nh) }
        },
        (None, None) => (w, h),
    }
}

proof fn lemma_round_div_below(a: int, b: int, c: int)
    requires
        0 <= a < b * c,
        b >= 1,
        c >= 1,
    ensures
        0 <= round_div(a, b) <= c,
        a < b * (c - 1) + b ==> round_div(a, b) <= c,
{
    assert(2 * a + b < 2 * b * c + 2 * b) by (nonlinear_arith)
        requires a < b * c, b >= 1;
    assert((2 * a + b) / (2 * b) <= c) by (nonlinear_arith)
        requires 2 * a + b < 2 * b * c + 2 * b, b >= 1, a >= 0;
    assert((2 * a + b) / (2 * b) >= 0) by (nonlinear_arith)
        requires a >= 0, b >= 1;
}

/// `round_div` is within half a step of the exact quotient.
proof fn lemma_round_div_close(a: int, b: int)
    requires
        a >= 0,
        b >= 1,
    ensures
        2 * (b * round_div(a, b) - a) <= b,
        2 * (a - b * round_div(a, b)) <= b,
{
    let q = round_div(a, b);
    assert(2 * b * q <= 2 * a + b < 2 * b * q + 2 * b) by (nonlinear_arith)
        requires q == (2 * a + b) / (2 * b), b >= 1;
    assert(2 * (b * q - a) <= b && 2 * (a - b * q) <= b) by (nonlinear_arith)
        requires 2 * b * q <= 2 * a + b < 2 * b * q + 2 * b;
}

/// The aspect window lies inside the picture.
proof fn lemma_aspect_window_inside(w: int, h: int, aw: int, ah: int)
    requires
        w >= 1,
        h >= 1,
        aw >= 1,
        ah >= 1,
    ensures
        ({
            let (x, y, cw, ch) = aspect_window(w, h, aw, ah);
            0 <= x && 0 <= y && 0 <= cw && 0 <= ch && x + cw <= w && y + ch <= h
        }),
{
    if ratio_differs(w, h, aw, ah) {
        if w * ah > aw * h {
            assert(h * aw < ah * w) by (nonlinear_arith)
                requires w * ah > aw * h;
            lemma_round_div_below(h * aw, ah, w);
        } else {
            assert(h * aw >= w * ah);
            assert(h * aw > w * ah) by (nonlinear_arith)
                requires ratio_differs(w, h, aw, ah), h * aw >= w * ah, h >= 1, ah >= 1;
            assert(w * ah < aw * h) by (nonlinear_arith)
                requires h * aw > w * ah;
            lemma_round_div_below(w * ah, aw, h);
        }
    }
}

/// No resize enlarges: for every picture and every pair of optional targets,
/// each output dimension is at most the corresponding source dimension, and
/// at least one.
pub proof fn resize_never_enlarges(w: int, h: int, tw: Option<u32>, th: Option<u32>)
    requires
        w >= 1,
        h >= 1,
        valid_target(tw),
        valid_target(th),
    ensures
        1 <= target_dims(w, h, tw, th).0 <= w,
        1 <= target_dims(w, h, tw, th).1 <= h,
{
    match (tw, th) {
        (Some(a), None) => {
            let nw = min_int(a as int, w);
            if nw != w {
                assert(h * nw < w * h) by (nonlinear_arith)
                    requires nw < w, h >= 1;
                lemma_round_div_below(h * nw, w, h);
            }
        },
        (None, Some(b)) => {
            let nh = min_int(b as int, h);
            if nh != h {
                assert(w * nh < h * w) by (nonlinear_arith)
                    requires nh < h, w >= 1;
                lemma_round_div_below(w * nh, h, w);
            }
        },
        _ => {},
    }
}

/// Aspect cropping meets the requested ratio: when the source ratio differs
/// from `aw:ah` by more than one hundredth, the window's ratio is within one
/// hundredth of it. Left out are the inputs where rounding the cut side to
/// whole pixels can miss by more: a wide source under 50 pixels high, and a
/// tall source whose kept height is under 50 times `aw / ah`.
pub proof fn aspect_crop_meets_ratio(w: int, h: int, aw: int, ah: int)
    requires
        w >= 1,
        h >= 1,
        aw >= 1,
        ah >= 1,
        ratio_differs(w, h, aw, ah),
        w * ah > aw * h ==> h >= 50,
        w * ah <= aw * h ==> round_div(w * ah, aw) * ah >= 50 * aw,
    ensures
        ({
            let (x, y, cw, ch) = aspect_window(w, h, aw, ah);
            !ratio_differs(cw, ch, aw, ah)
        }),
{
    if w * ah > aw * h {
        let q = round_div(h * aw, ah);
        lemma_round_div_close(h * aw, ah);
        assert(50 * ah <= h * ah) by (nonlinear_arith)
            requires h >= 50, ah >= 1;
        assert(!ratio_differs(q, h, aw, ah)) by (nonlinear_arith)
            requires
                2 * (ah * q - h * aw) <= ah,
                2 * (h * aw - ah * q) <= ah,
                50 * ah <= h * ah;
    } else {
        let q = round_div(w * ah, aw);
        lemma_round_div_close(w * ah, aw);
        assert(!ratio_differs(w, q, aw, ah)) by (nonlinear_arith)
            requires
                2 * (aw * q - w * ah) <= aw,
                2 * (w * ah - aw * q) <= aw,
                q * ah >= 50 * aw;
    }
}

/// The picture cropped to the ratio `want`, when given and when the
/// picture's ratio differs from it by more than one hundredth.
pub open spec fn aspect_cropped(p: Picture, want: Option<(u32, u32)>) -> Picture {
    match want {
        None => p,
        Some((aw, ah)) => if ratio_differs(p.width as int, p.height as int, aw as int, ah as int) {
            let (x, y, cw, ch) = aspect_window(p.width as int, p.height as int, aw as int, ah as int);
            Picture {
                width: cw as nat,
                height: ch as nat,
                pixels: window(p.pixels, p.width, x as nat, y as nat, cw as nat, ch as nat),
            }
        } else {
            p
        },
    }
}

/// The picture resized towards the optional targets (see `target_dims`),
/// with the Lanczos3 kernel; unchanged when the size stays the same.
pub open spec fn resized(p: Picture, tw: Option<u32>, th: Option<u32>) -> Picture {
    let (nw, nh) = target_dims(p.width as int, p.height as int, tw, th);
    if nw == p.width && nh == p.height {
        p
    } else {
        Picture {
            width: nw as nat,
            height: nh as nat,
            pixels: resampled(p.pixels, p.width, p.height, nw as nat, nh as nat, true),
        }
    }
}

/// `round_div` on machine integers.
fn round_div_u128(a: u128, b: u128) -> (r: u128)
    requires
        b >= 1,
        a <= 0x1_0000_0000_0000_0000,
        b <= 0xffff_ffff,
    ensures
        r as int == round_div(a as int, b as int),
{
    (2 * a + b) / (2 * b)
}

/// A smaller picture fits in memory when the larger one does.
pub(crate) proof fn lemma_smaller_fits(w: int, h: int, nw: int, nh: int)
    requires
        0 <= nw <= w,
        0 <= nh <= h,
        4 * w * h <= usize::MAX,
    ensures
        4 * nw * nh <= usize::MAX,
{
    assert(4 * nw * nh <= 4 * w * h) by (nonlinear_arith)
        requires 0 <= nw <= w, 0 <= nh <= h;
}

/// Crops `img` symmetrically to the ratio `want`, when it is given and the
/// picture's own ratio differs from it by more than one hundredth; otherwise
/// returns a copy. The kept side is rounded to whole pixels and may round to
/// zero on a tiny picture.
pub fn ensure_aspect(img: &Raster, want: Option<(u32, u32)>) -> (r: Raster)
    requires
        img.nonempty(),
        valid_aspect(want),
    ensures
        r.wf(),
        r@ == aspect_cropped(img@, want),
{
    match want {
        None => img.duplicate(),
        Some((aw, ah)) => {
            proof {
                lemma_aspect_window_inside(img.width as int, img.height as int, aw as int, ah as int);
            }
            let w = img.width as u128;
            let h = img.height as u128;
            let a = aw as u128;
            let b = ah as u128;
            assert(w * b <= 0xffff_ffff * 0xffff_ffff && a * h <= 0xffff_ffff * 0xffff_ffff)
                by (nonlinear_arith)
                requires w <= 0xffff_ffff, h <= 0xffff_ffff, a <= 0xffff_ffff, b <= 0xffff_ffff;
            assert(h * b <= 0xffff_ffff * 0xffff_ffff && h * a <= 0xffff_ffff * 0xffff_ffff
                && w * b <= 0xffff_ffff * 0xffff_ffff) by (nonlinear_arith)
                requires w <= 0xffff_ffff, h <= 0xffff_ffff, a <= 0xffff_ffff, b <= 0xffff_ffff;
            let wide = w * b;
            let tall = a * h;
            let diff = if wide >= tall { wide - tall } else { tall - wide };
            if 100 * diff > h * b {
                if wide > tall {
                    let cw = round_div_u128(h * a, b);
                    let x = (w - cw) / 2;
                    crop_pixels(img, x as u32, 0, cw as u32, img.height)
                } else {
                    let ch = round_div_u128(w * b, a);
                    let y = (h - ch) / 2;
                    crop_pixels(img, 0, y as u32, img.width, ch as u32)
                }
            } else {
                img.duplicate()
            }
        },
    }
}

/// `target_dims` on machine integers.
fn target_dims_u32(w: u32, h: u32, tw: Option<u32>, th: Option<u32>) -> (r: (u32, u32))
    requires
        w >= 1,
        h >= 1,
        valid_target(tw),
        valid_target(th),
    ensures
        r.0 as int == target_dims(w as int, h as int, tw, th).0,
        r.1 as int == target_dims(w as int, h as int, tw, th).1,
{
    proof {
        resize_never_enlarges(w as int, h as int, tw, th);
    }
    match (tw, th) {
        (Some(a), Some(b)) => (if a < w { a } else { w }, if b < h { b } else { h }),
        (Some(a), None) => {
            let nw = if a < w { a } else { w };
            if nw == w {
                (w, h)
            } else {
                assert((h as u128) * (nw as u128) <= 0xffff_ffff * 0xffff_ffff) by (nonlinear_arith)
                    requires h <= 0xffff_ffff, nw <= 0xffff_ffff;
                let nh = round_div_u128(h as u128 * nw as u128, w as u128);
                (nw, if nh < 1 { 1 } else { nh as u32 })
            }
        },
        (None, Some(b)) => {
            let nh = if b < h { b } else { h };
            if nh == h {
                (w, h)
            } else {
                assert((w as u128) * (nh as u128) <= 0xffff_ffff * 0xffff_ffff) by (nonlinear_arith)
                    requires w <= 0xffff_ffff, nh <= 0xffff_ffff;
                let nw = round_div_u128(w as u128 * nh as u128, h as u128);
                (if nw < 1 { 1 } else { nw as u32 }, nh)
            }
        },
        (None, None) => (w, h),
    }
}

/// Resizes `img` towards the optional targets without ever enlarging it:
/// both targets give an exact resize to the clamped pair, one target a
/// proportional resize, none (or targets equal to the source) a copy.
/// Resampling uses the Lanczos3 kernel.
pub fn resize_if_needed(img: &Raster, target_w: Option<u32>, target_h: Option<u32>) -> (r: Raster)
    requires
        img.nonempty(),
        valid_target(target_w),
        valid_target(target_h),
    ensures
        r.nonempty(),
        r.width <= img.width,
        r.height <= img.height,
        r@ == resized(img@, target_w, target_h),
{
    proof {
        resize_never_enlarges(img.width as int, img.height as int, target_w, target_h);
    }
    let (nw, nh) = target_dims_u32(img.width, img.height, target_w, target_h);
    if nw == img.width && nh == img.height {
        img.duplicate()
    } else {
        let len = img.rgba.len();
        proof {
            assert(4 * (img.width as int) * (img.height as int) == len);
            lemma_smaller_fits(img.width as int, img.height as int, nw as int, nh as int);
        }
        resample(img, nw, nh, Resampling::Lanczos3)
    }
}

} // verus!
