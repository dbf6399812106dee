use std::hash::{Hash, Hasher};

use shopimage::cache::{calculate_file_hash, hash_text};
use shopimage::delivery::{
    batch_response, blob_path, download_url, file_name, nobg_file_name, page_file_name, size_kb, BatchItem,
};
use shopimage::identity::{client_ip, effective_user, first_field_text};
use shopimage::quota::{CivilDate, Usage};

#[test]
fn file_hash_is_hex_of_default_hasher() {
    let data = b"some image bytes";
    let mut h = std::collections::hash_map::DefaultHasher::new();
    data[..].hash(&mut h);
    assert_eq!(calculate_file_hash(data), format!("{:x}", h.finish()));
    assert_eq!(calculate_file_hash(data), calculate_file_hash(data));
    assert_ne!(calculate_file_hash(b"a"), calculate_file_hash(b"b"));
}

#[test]
fn hex_text_has_no_leading_zeros() {
    assert_eq!(hash_text(0), "0");
    assert_eq!(hash_text(255), "ff");
    assert_eq!(hash_text(0x1234_abcd), "1234abcd");
    assert_eq!(hash_text(u64::MAX), "ffffffffffffffff");
}

#[test]
fn storage_names_and_links() {
    let name = file_name("3f2a", "webp");
    assert_eq!(name, "3f2a.webp");
    let path = blob_path("2025-06-01", &name);
    assert_eq!(path, "output/2025-06-01/3f2a.webp");
    assert_eq!(
        download_url("http://localhost:8080", &path),
        "http://localhost:8080/dl/output%2F2025-06-01%2F3f2a.webp"
    );
    assert_eq!(download_url("b", "a b~é"), "b/dl/a%20b~%C3%A9");
    assert_eq!(size_kb(2047), 1);
    assert_eq!(size_kb(1023), 0);
}

#[test]
fn batch_ok_when_any_item_ok() {
    let items = vec![
        BatchItem::failed(0, Some("a.png".to_string()), "Unsupported image"),
        BatchItem::stored(1, None, "x.webp".to_string(), 4096, "u".to_string()),
    ];
    assert_eq!(items[0].error.as_deref(), Some("Unsupported image"));
    assert_eq!(items[1].size_kb, Some(4));
    let r = batch_response(items);
    assert!(r.ok);
    assert_eq!(r.count, 2);
    let r = batch_response(vec![BatchItem::failed(0, None, "Invalid file")]);
    assert!(!r.ok);
    let r = batch_response(Vec::new());
    assert!(!r.ok);
    assert_eq!(r.count, 0);
}

#[test]
fn identity_prefers_user_header() {
    assert_eq!(
        effective_user(Some("u42"), Some("pro"), Some("9.9.9.9"), Some("1.1.1.1")),
        ("u42".to_string(), "pro".to_string())
    );
    assert_eq!(effective_user(Some("u42"), None, None, None), ("u42".to_string(), "free".to_string()));
    assert_eq!(
        effective_user(None, Some("pro"), Some(" 9.9.9.9 , 10.0.0.1"), Some("1.1.1.1")),
        ("ip:9.9.9.9".to_string(), "free".to_string())
    );
    assert_eq!(
        effective_user(None, None, None, Some("1.1.1.1")),
        ("ip:1.1.1.1".to_string(), "free".to_string())
    );
    assert_eq!(effective_user(None, None, None, None), ("ip:unknown".to_string(), "free".to_string()));
}

#[test]
fn rate_key_skips_blank_headers() {
    assert_eq!(client_ip(Some("5.5.5.5, 6.6.6.6"), None, None), Some("5.5.5.5".to_string()));
    assert_eq!(client_ip(Some(" , 6.6.6.6"), Some(" 7.7.7.7 "), None), Some("7.7.7.7".to_string()));
    assert_eq!(client_ip(None, Some("  "), Some("8.8.8.8")), Some("8.8.8.8".to_string()));
    assert_eq!(client_ip(None, None, None), None);
    assert_eq!(first_field_text("a,b"), "a");
    assert_eq!(first_field_text("ab"), "ab");
}

#[test]
fn usage_rotation() {
    let d = CivilDate { year: 2025, month: 5, day: 31 };
    let mut u = Usage::new(d);
    assert_eq!((u.day_count, u.month_count), (0, 0));
    u.day_count = 7;
    u.month_count = 50;
    u.rotate_if_needed(d);
    assert_eq!((u.day_count, u.month_count), (7, 50));
    u.rotate_if_needed(CivilDate { year: 2025, month: 6, day: 1 });
    assert_eq!((u.day_count, u.month_count), (0, 0));
    assert_eq!(u.month_key, (2025, 6));
}

#[test]
fn page_and_nobg_names() {
    assert_eq!(page_file_name(1, "u"), "page_001_u.jpg");
    assert_eq!(page_file_name(42, "u"), "page_042_u.jpg");
    assert_eq!(page_file_name(1234, "u"), "page_1234_u.jpg");
    assert_eq!(nobg_file_name("shoe.jpg", "u"), "nobg_sho_u.png");
    assert_eq!(nobg_file_name("bag.PNG", "u"), "nobg_bag.PN_u.png");
    assert_eq!(nobg_file_name("new.jpeg", "u"), "nobg__u.png");
    assert_eq!(nobg_file_name("cat.webp", "u"), "nobg_cat.web_u.png");
}
