use shopimage::config::{parse_conn_string, setting_value};
use shopimage::encode::Codec;
use shopimage::formats::{guess_content_type_by_ext, is_heic_format, is_pdf_format, sane_dim};
use shopimage::pipeline::{resolve_batch_request, resolve_request, upload_within_ceiling, ConvertQuery};
use shopimage::presets::{preset, preset_for_key};
use shopimage::query::{parse_u32, parse_u32_opt, trim_text};

fn query() -> ConvertQuery {
    ConvertQuery {
        platform: None,
        max_kb: None,
        format: None,
        target_w: None,
        target_h: None,
        max_upload_mb: None,
        border: None,
        border_color: None,
    }
}

#[test]
fn sane_dim_clamps() {
    assert_eq!(sane_dim(0), 1);
    assert_eq!(sane_dim(1), 1);
    assert_eq!(sane_dim(800), 800);
    assert_eq!(sane_dim(4096), 4096);
    assert_eq!(sane_dim(5000), 4096);
}

#[test]
fn parses_dimensions() {
    assert_eq!(parse_u32_opt(None), None);
    assert_eq!(parse_u32_opt(Some("")), None);
    assert_eq!(parse_u32_opt(Some("   ")), None);
    assert_eq!(parse_u32_opt(Some(" 1024 ")), Some(1024));
    assert_eq!(parse_u32_opt(Some("+7")), Some(7));
    assert_eq!(parse_u32_opt(Some("12px")), None);
    assert_eq!(parse_u32_opt(Some("-3")), None);
    assert_eq!(parse_u32("4294967295"), Some(u32::MAX));
    assert_eq!(parse_u32("4294967296"), None);
    assert_eq!(parse_u32("+"), None);
    assert_eq!(parse_u32("007"), Some(7));
}

#[test]
fn trims_unicode_space() {
    assert_eq!(trim_text("\u{3000}\t ab c\n"), "ab c");
    assert_eq!(trim_text("  "), "");
}

#[test]
fn sniffs_pdf_and_heic() {
    assert!(is_pdf_format(b"%PDF-1.4"));
    assert!(!is_pdf_format(b"%PDF"));
    assert!(!is_pdf_format(b"%PDX-1.4"));
    let mut heic = vec![0u8, 0, 0, 24];
    heic.extend_from_slice(b"ftyphevx");
    heic.extend_from_slice(&[0u8; 4]);
    assert!(is_heic_format(&heic));
    let mut avif = vec![0u8, 0, 0, 24];
    avif.extend_from_slice(b"ftypavif");
    avif.extend_from_slice(&[0u8; 4]);
    assert!(!is_heic_format(&avif));
    assert!(!is_heic_format(b"ftypheic"));
}

#[test]
fn content_type_by_extension() {
    assert_eq!(guess_content_type_by_ext("output/a.jpg"), "image/jpeg");
    assert_eq!(guess_content_type_by_ext("a.jpeg"), "image/jpeg");
    assert_eq!(guess_content_type_by_ext("a.png"), "image/png");
    assert_eq!(guess_content_type_by_ext("doc.pdf"), "application/pdf");
    assert_eq!(guess_content_type_by_ext("x.webp"), "image/webp");
    assert_eq!(guess_content_type_by_ext("noext"), "image/webp");
}

#[test]
fn presets_by_name() {
    let s = preset("Shopee");
    assert_eq!(s.max_bytes, 2 * 1024 * 1024);
    assert_eq!((s.target_w, s.target_h), (Some(1024), Some(1024)));
    assert_eq!(s.aspect, Some((1, 1)));
    assert_eq!(s.format, "webp");
    let l = preset("LAZADA");
    assert_eq!(l.max_bytes, 3 * 1024 * 1024);
    assert_eq!((l.target_w, l.target_h), (Some(1200), Some(1600)));
    assert_eq!(l.aspect, None);
    let o = preset("etsy");
    assert_eq!(o.max_bytes, 2 * 1024 * 1024);
    assert_eq!((o.target_w, o.target_h, o.aspect), (None, None, None));
    assert_eq!(preset_for_key("Shopee").target_w, None);
}

#[test]
fn request_defaults() {
    let r = resolve_request(&query());
    assert_eq!(r.max_bytes, 2048 * 1024);
    assert_eq!(r.upload_ceiling_bytes, 8 * 1024 * 1024);
    assert_eq!(r.codec, Codec::Webp);
    assert_eq!((r.target_w, r.target_h), (None, None));
}

#[test]
fn request_clamps_and_saturates() {
    let mut q = query();
    q.target_w = Some("0".to_string());
    q.target_h = Some("99999".to_string());
    q.max_kb = Some(u64::MAX);
    q.format = Some("jpeg".to_string());
    let r = resolve_request(&q);
    assert_eq!((r.target_w, r.target_h), (Some(1), Some(4096)));
    assert_eq!(r.max_bytes, u64::MAX);
    assert_eq!(r.codec, Codec::Jpeg);
    q.format = Some("JPEG".to_string());
    assert_eq!(resolve_request(&q).codec, Codec::Webp);
}

#[test]
fn batch_request_takes_preset() {
    let mut q = query();
    q.platform = Some("shopee".to_string());
    let r = resolve_batch_request(&q);
    assert_eq!(r.max_bytes, 2 * 1024 * 1024);
    assert_eq!((r.target_w, r.target_h), (Some(1024), Some(1024)));
    q.max_kb = Some(100);
    q.target_w = Some("500".to_string());
    let r = resolve_batch_request(&q);
    assert_eq!(r.max_bytes, 100 * 1024);
    assert_eq!((r.target_w, r.target_h), (Some(500), Some(1024)));
    q.platform = None;
    let r = resolve_batch_request(&q);
    assert_eq!((r.target_w, r.target_h), (Some(500), None));
}

#[test]
fn upload_ceiling() {
    let r = resolve_request(&query());
    assert!(upload_within_ceiling(8 * 1024 * 1024, &r));
    assert!(!upload_within_ceiling(8 * 1024 * 1024 + 1, &r));
}

#[test]
fn connection_string_credentials() {
    let conn = "DefaultEndpointsProtocol=https;AccountName=shop ; AccountKey = abc==;EndpointSuffix=core.windows.net";
    assert_eq!(parse_conn_string(conn), Some(("shop".to_string(), "abc==".to_string())));
    assert_eq!(parse_conn_string("AccountName=a"), None);
    assert_eq!(parse_conn_string(""), None);
    assert_eq!(
        parse_conn_string("AccountName=a;AccountKey=k;AccountName=b"),
        Some(("b".to_string(), "k".to_string()))
    );
    assert_eq!(parse_conn_string("AccountName;AccountKey=k"), Some((String::new(), "k".to_string())));
    assert_eq!(setting_value("x=1;y=2", "y"), Some("2".to_string()));
    assert_eq!(setting_value("x=1;y=2", "z"), None);
}
