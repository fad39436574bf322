use std::time::{SystemTime, UNIX_EPOCH};

use time::format_description::well_known::Rfc3339;
use time::OffsetDateTime;
use vandelay::db::blobs::{blob_hash_hex, blob_key, blob_len};
use vandelay::db::export_failures::{count, page, stamp};

#[test]
fn blob_hash_hex_returns_the_full_blake3_digest() {
    let hex = blob_hash_hex(&blob_key(b"hello world"));
    assert_eq!(hex.len(), 64, "got {hex}");
    assert_eq!(hex, blake3::hash(b"hello world").to_hex().to_string());
}

#[test]
fn blob_len_reports_byte_length() {
    assert_eq!(blob_len(7), 7);
    assert_eq!(blob_len(-1), 0);
}

#[test]
fn identical_bytes_have_one_key() {
    assert_eq!(blob_key(b"hello world"), blob_key(b"hello world"));
    assert_ne!(blob_key(b"hello world"), blob_key(b"different"));
}

#[test]
fn pages_are_picked_by_the_query() {
    assert_eq!(page(Some(2), 4), " LIMIT 2 OFFSET 4");
    assert_eq!(page(None, 4), " LIMIT -1 OFFSET 4");
    assert_eq!(page(None, 0), "");
    assert_eq!(count(-3), 0);
    assert_eq!(count(3), 3);
}

#[test]
fn stamps_are_in_utc() {
    assert_eq!(stamp(0).as_deref(), Some("1970-01-01T00:00:00Z"));
    assert_eq!(stamp(1_767_225_600_000_000_000).as_deref(), Some("2026-01-01T00:00:00Z"));
    assert_eq!(stamp(1_500_000_000).as_deref(), Some("1970-01-01T00:00:01.5Z"));
    assert_eq!(stamp(-62_167_219_200_000_000_000).as_deref(), Some("0000-01-01T00:00:00Z"));
    assert_eq!(stamp(-62_167_219_200_000_000_001), None);
    assert_eq!(stamp(253_402_300_799_999_999_999).as_deref(), Some("9999-12-31T23:59:59.999999999Z"));
    assert_eq!(stamp(253_402_300_800_000_000_000), None);
    assert_eq!(stamp(i128::MAX), None);
}

#[test]
fn stamp_is_rfc3339_utc_and_comes_from_the_clock() {
    let before = OffsetDateTime::now_utc();
    let nanos = SystemTime::now().duration_since(UNIX_EPOCH).unwrap().as_nanos() as i128;
    let s = stamp(nanos).expect("a year that can be written");
    assert!(s.ends_with('Z'), "got {s}");
    match OffsetDateTime::parse(&s, &Rfc3339) {
        Ok(t) => assert!(t >= before, "stamp predates the call: {s}"),
        Err(e) => panic!("not RFC 3339: {s} ({e})"),
    }
}
