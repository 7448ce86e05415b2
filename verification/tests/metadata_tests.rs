use datafall::address::{parse_download_url, ParsedUrl};
use datafall::metadata::{header_value_is_text, FileMetadata, ResourceMetadata};

fn url(text: &str, path: &str) -> ParsedUrl {
    let parsed = parse_download_url(text).unwrap();
    assert_eq!(parsed.path(), path);
    parsed
}

#[test]
fn header_text_check_matches_header_value_to_str() {
    let samples: Vec<Vec<u8>> = vec![
        b"bytes".to_vec(),
        b"".to_vec(),
        b"a\tb".to_vec(),
        b"caf\xc3\xa9".to_vec(),
        vec![0x80],
        b" ~".to_vec(),
    ];
    for sample in samples {
        let value = reqwest::header::HeaderValue::from_bytes(&sample).unwrap();
        assert_eq!(header_value_is_text(&sample), value.to_str().is_ok(), "{:?}", sample);
    }
    assert!(!header_value_is_text(&[0x7f]));
    assert!(!header_value_is_text(&[0x01]));
}

#[test]
fn resource_metadata_reads_size_and_ranges() {
    let meta = ResourceMetadata::new(Some(b"1048576"), Some(b"bytes")).unwrap();
    assert_eq!(meta, ResourceMetadata { size: Some(1048576), accept_ranges: true });
}

#[test]
fn resource_metadata_without_headers() {
    let meta = ResourceMetadata::new(None, None).unwrap();
    assert_eq!(meta, ResourceMetadata { size: None, accept_ranges: false });
}

#[test]
fn resource_metadata_other_range_unit() {
    let meta = ResourceMetadata::new(Some(b"10"), Some(b"none")).unwrap();
    assert_eq!(meta, ResourceMetadata { size: Some(10), accept_ranges: false });
    let meta = ResourceMetadata::new(Some(b"10"), Some(b"Bytes")).unwrap();
    assert!(!meta.accept_ranges);
}

#[test]
fn resource_metadata_non_visible_length() {
    let error = ResourceMetadata::new(Some(b"1\x0102"), Some(b"bytes")).unwrap_err();
    assert_eq!(error, "Non visible characters found: failed to convert header to a str");
}

#[test]
fn resource_metadata_non_visible_ranges() {
    let error = ResourceMetadata::new(Some(b"12"), Some(b"byt\xffes")).unwrap_err();
    assert_eq!(error, "Non visible characters found: failed to convert header to a str");
}

#[test]
fn resource_metadata_invalid_lengths() {
    assert_eq!(
        ResourceMetadata::new(Some(b""), None).unwrap_err(),
        "Invalid 'Content-Length' header: cannot parse integer from empty string"
    );
    assert_eq!(
        ResourceMetadata::new(Some(b"12 "), None).unwrap_err(),
        "Invalid 'Content-Length' header: invalid digit found in string"
    );
    assert_eq!(
        ResourceMetadata::new(Some(b"99999999999999999999"), None).unwrap_err(),
        "Invalid 'Content-Length' header: number too large to fit in target type"
    );
}

#[test]
fn length_error_comes_before_ranges_error() {
    assert_eq!(
        ResourceMetadata::new(Some(b"x"), Some(b"\x01")).unwrap_err(),
        "Invalid 'Content-Length' header: invalid digit found in string"
    );
}

#[test]
fn file_metadata_names_file_after_last_segment() {
    let meta = FileMetadata::new(
        Some(b"2048"),
        Some(b"bytes"),
        &url("https://example.com/files/a.iso", "/files/a.iso"),
    )
    .unwrap();
    assert_eq!(meta.filename, "a.iso");
    assert_eq!(meta.size, Some(2048));
    assert!(meta.accept_ranges);
    assert_eq!(meta.split_size(), Some(2048));
}

#[test]
fn file_metadata_default_name() {
    let meta = FileMetadata::new(None, None, &url("https://example.com/", "/")).unwrap();
    assert_eq!(meta.filename, "TODO.bin");
    let meta = FileMetadata::new(None, None, &url("https://example.com/dir/", "/dir/")).unwrap();
    assert_eq!(meta.filename, "TODO.bin");
    let meta = FileMetadata::new(None, None, &url("data:text/plain,hi", "text/plain,hi")).unwrap();
    assert_eq!(meta.filename, "TODO.bin");
}

#[test]
fn split_size_needs_size_and_ranges() {
    let u = url("https://example.com/a", "/a");
    assert_eq!(FileMetadata::new(None, Some(b"bytes"), &u).unwrap().split_size(), None);
    assert_eq!(FileMetadata::new(Some(b"5"), None, &u).unwrap().split_size(), None);
    assert_eq!(FileMetadata::new(Some(b"5"), Some(b"bytes"), &u).unwrap().split_size(), Some(5));
}
