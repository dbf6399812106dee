use image::ImageEncoder;
use shopimage::encode::{encode_jpeg_under, encode_under_budget, encode_webp_under, Codec, EncodeError};
use shopimage::geometry::{ensure_aspect, resize_if_needed, Raster};
use shopimage::pipeline::{convert_image, load_image_with_heic_support, resolve_request, ConvertQuery};

fn gradient(w: u32, h: u32) -> Raster {
    let mut px = Vec::with_capacity((w * h * 4) as usize);
    for y in 0..h {
        for x in 0..w {
            px.push((x % 256) as u8);
            px.push((y % 256) as u8);
            px.push(((x + y) % 256) as u8);
            px.push(255);
        }
    }
    Raster::from_rgba(w, h, px).unwrap()
}

fn query() -> ConvertQuery {
    ConvertQuery {
        platform: None,
        max_kb: None,
        format: None,
        target_w: None,
        target_h: None,
        max_upload_mb: None,
        border: None,
        border_color: None,
    }
}

#[test]
fn from_rgba_checks_length() {
    assert!(Raster::from_rgba(2, 2, vec![0; 16]).is_some());
    assert!(Raster::from_rgba(2, 2, vec![0; 15]).is_none());
}

#[test]
fn resize_never_upscales() {
    let img = gradient(40, 30);
    let r = resize_if_needed(&img, Some(4000), Some(3000));
    assert_eq!((r.width, r.height), (40, 30));
    assert_eq!(r.rgba, img.rgba);
    let r = resize_if_needed(&img, Some(100), None);
    assert_eq!((r.width, r.height), (40, 30));
    let r = resize_if_needed(&img, None, Some(10));
    assert_eq!((r.width, r.height), (13, 10));
    let r = resize_if_needed(&img, Some(20), Some(500));
    assert_eq!((r.width, r.height), (20, 30));
}

#[test]
fn resize_width_only_keeps_aspect() {
    let img = gradient(400, 300);
    let r = resize_if_needed(&img, Some(100), None);
    assert_eq!((r.width, r.height), (100, 75));
    assert_eq!(r.rgba.len(), 100 * 75 * 4);
}

#[test]
fn resize_without_targets_is_identity() {
    let img = gradient(17, 9);
    let r = resize_if_needed(&img, None, None);
    assert_eq!((r.width, r.height), (17, 9));
    assert_eq!(r.rgba, img.rgba);
}

#[test]
fn crop_wide_to_square_is_centred() {
    let img = gradient(400, 200);
    let r = ensure_aspect(&img, Some((1, 1)));
    assert_eq!((r.width, r.height), (200, 200));
    // The window starts at x = 100: red channel is x % 256.
    assert_eq!(r.rgba[0], 100);
    assert_eq!(r.rgba[1], 0);
}

#[test]
fn crop_tall_to_four_by_three() {
    let img = gradient(300, 900);
    let r = ensure_aspect(&img, Some((4, 3)));
    assert_eq!((r.width, r.height), (300, 225));
    let ratio = r.width as f64 / r.height as f64;
    assert!((ratio - 4.0 / 3.0).abs() <= 0.01);
    // The window starts at y = 337: green channel is y % 256.
    assert_eq!(r.rgba[1], (337 % 256) as u8);
}

#[test]
fn crop_ratio_within_one_hundredth() {
    let img = gradient(1000, 700);
    let r = ensure_aspect(&img, Some((16, 9)));
    let ratio = r.width as f64 / r.height as f64;
    assert!((ratio - 16.0 / 9.0).abs() <= 0.01);
    assert_eq!(r.width, 1000);
}

#[test]
fn crop_skipped_when_ratio_close() {
    let img = gradient(200, 100);
    let r = ensure_aspect(&img, Some((201, 100)));
    assert_eq!((r.width, r.height), (200, 100));
    let r = ensure_aspect(&img, None);
    assert_eq!((r.width, r.height), (200, 100));
}

#[test]
fn webp_fits_generous_budget_at_lowest_quality() {
    let img = gradient(64, 48);
    let out = encode_webp_under(&img, 1_000_000).unwrap();
    assert_eq!(&out[0..4], b"RIFF");
    assert_eq!(&out[8..12], b"WEBP");
    let direct = webp::Encoder::from_rgba(&img.rgba, 64, 48).encode(35.0).to_vec();
    assert_eq!(out, direct);
}

#[test]
fn webp_over_budget_small_picture_falls_back() {
    // Below the minimum edge no smaller scale is tried: the lowest quality
    // of the picture itself comes back although it exceeds the budget.
    let img = gradient(64, 48);
    let out = encode_webp_under(&img, 1).unwrap();
    let direct = webp::Encoder::from_rgba(&img.rgba, 64, 48).encode(35.0).to_vec();
    assert_eq!(out, direct);
    assert!(out.len() > 1);
}

#[test]
fn jpeg_fits_budget() {
    let img = gradient(64, 48);
    let out = encode_jpeg_under(&img, 1_000_000).unwrap();
    assert_eq!(&out[0..2], &[0xFF, 0xD8]);
    assert!(out.len() <= 1_000_000);
}

#[test]
fn budget_search_shrinks_large_picture() {
    let img = gradient(1200, 900);
    let full = encode_under_budget(&img, Codec::Jpeg, u64::MAX).unwrap();
    assert_eq!((full.width, full.height), (1200, 900));
    let budget = (full.bytes.len() / 3) as u64;
    let out = encode_under_budget(&img, Codec::Jpeg, budget).unwrap();
    assert!(out.bytes.len() as u64 <= budget);
    assert!(out.width < 1200 && out.height < 900);
    assert!(out.width > 320 && out.height > 320);
}

#[test]
fn webp_rejects_oversized_side() {
    let img = Raster::from_rgba(17000, 1, vec![0; 17000 * 4]).unwrap();
    assert_eq!(encode_webp_under(&img, 1000), Err(EncodeError::TooLarge));
}

#[test]
fn end_to_end_webp_width_only() {
    let img = gradient(4000, 3000);
    let mut q = query();
    q.target_w = Some("1024".to_string());
    q.format = Some("webp".to_string());
    q.max_kb = Some(200);
    let req = resolve_request(&q);
    assert_eq!(req.max_bytes, 204800);
    assert_eq!(req.target_w, Some(1024));
    assert_eq!(req.target_h, None);
    let art = convert_image(&img, &req, true).unwrap();
    assert!(art.bytes.len() <= 204800);
    assert_eq!(art.content_type, "image/webp");
    assert_eq!(art.extension, "webp");
    assert!(art.width <= 1024);
    let back = image::load_from_memory(&art.bytes).unwrap();
    assert_eq!((back.width(), back.height()), (art.width, art.height));
    assert!(back.width() <= 1024);
    assert_eq!(back.width(), 1024);
    assert_eq!(back.height(), 768);
}

#[test]
fn convert_jpeg_square_crop() {
    let img = gradient(300, 200);
    let mut q = query();
    q.target_w = Some("100".to_string());
    q.target_h = Some("100".to_string());
    q.format = Some("jpg".to_string());
    let req = resolve_request(&q);
    let art = convert_image(&img, &req, true).unwrap();
    assert_eq!(art.content_type, "image/jpeg");
    assert_eq!(art.extension, "jpg");
    let back = image::load_from_memory(&art.bytes).unwrap();
    assert_eq!((back.width(), back.height()), (100, 100));
}

#[test]
fn load_decodes_png() {
    let img = gradient(5, 4);
    let mut png: Vec<u8> = Vec::new();
    image::codecs::png::PngEncoder::new(&mut png)
        .write_image(&img.rgba, 5, 4, image::ExtendedColorType::Rgba8)
        .unwrap();
    let r = load_image_with_heic_support(&png).unwrap();
    assert_eq!((r.width, r.height), (5, 4));
    assert_eq!(r.rgba, img.rgba);
}

#[test]
fn load_reports_heic_pdf_and_unknown() {
    let mut heic = vec![0u8, 0, 0, 24];
    heic.extend_from_slice(b"ftypheic");
    heic.extend_from_slice(&[0u8; 12]);
    assert_eq!(
        load_image_with_heic_support(&heic).unwrap_err(),
        "HEIC format detected but not supported. Please convert to JPEG or PNG format first."
    );
    assert_eq!(
        load_image_with_heic_support(b"%PDF-1.7 rest").unwrap_err(),
        "PDF format detected. Please use /api/convert-pdf endpoint for PDF conversion."
    );
    assert_eq!(
        load_image_with_heic_support(b"hello").unwrap_err(),
        "Unsupported image format. Supported formats: JPEG, PNG, WebP"
    );
}

#[test]
fn crop_may_round_to_nothing() {
    let img = gradient(1, 50);
    let r = ensure_aspect(&img, Some((1, 1000)));
    assert_eq!((r.width, r.height), (0, 50));
    assert!(r.rgba.is_empty());
}

#[test]
fn convert_reports_empty_crop() {
    let img = gradient(1, 50);
    let mut q = query();
    q.target_w = Some("1".to_string());
    q.target_h = Some("1000".to_string());
    let req = resolve_request(&q);
    assert!(matches!(convert_image(&img, &req, true), Err(EncodeError::Empty)));
    // Without cropping the same request converts.
    assert!(convert_image(&img, &req, false).is_ok());
}

#[test]
fn larger_budget_never_worse() {
    let img = gradient(700, 500);
    let small = encode_webp_under(&img, 40_000).unwrap();
    let large = encode_webp_under(&img, 400_000).unwrap();
    if small.len() <= 40_000 {
        assert!(large.len() <= 400_000);
    }
    assert!(large.len() <= 400_000);
}
