use datafall::address::{parse_download_url, url_file_name};
use datafall::hash::get_hash;

#[test]
fn parse_download_url_keeps_serialization_and_path() {
    let parsed = parse_download_url("https://example.com/files/a.iso?x=1").unwrap();
    assert_eq!(parsed.as_str(), "https://example.com/files/a.iso?x=1");
    assert_eq!(parsed.path(), "/files/a.iso");
}

#[test]
fn parse_download_url_normalizes() {
    let parsed = parse_download_url("HTTP://Example.COM").unwrap();
    assert_eq!(parsed.as_str(), "http://example.com/");
    assert_eq!(parsed.path(), "/");
}

#[test]
fn parse_download_url_reports_invalid_input() {
    assert_eq!(
        parse_download_url("not a url").unwrap_err(),
        "The URL 'not a url' is invalid: relative URL without a base"
    );
    assert_eq!(
        parse_download_url("http://").unwrap_err(),
        "The URL 'http://' is invalid: empty host"
    );
}

#[test]
fn file_name_is_last_non_empty_segment() {
    let u = parse_download_url("https://example.com/a/b/c.tar.gz").unwrap();
    assert_eq!(url_file_name(&u), Some("c.tar.gz".to_string()));
    let u = parse_download_url("https://example.com/a/b/").unwrap();
    assert_eq!(url_file_name(&u), None);
    let u = parse_download_url("mailto:someone@example.com").unwrap();
    assert_eq!(url_file_name(&u), None);
}

#[test]
fn hash_is_url_safe_base64_of_url_and_size() {
    let u = parse_download_url("http://x").unwrap();
    assert_eq!(get_hash(3, &u), "aHR0cDovL3gvLTM=");
    let u = parse_download_url("https://example.com/files/a.iso").unwrap();
    assert_eq!(get_hash(1048576, &u), "aHR0cHM6Ly9leGFtcGxlLmNvbS9maWxlcy9hLmlzby0xMDQ4NTc2");
}

#[test]
fn hash_holds_no_slash() {
    let u = parse_download_url("https://example.com/???>>>").unwrap();
    let hash = get_hash(u64::MAX, &u);
    assert!(!hash.contains('/'));
    assert!(!hash.is_empty());
}

#[test]
fn distinct_downloads_get_distinct_keys() {
    let a = parse_download_url("https://example.com/a-1").unwrap();
    let b = parse_download_url("https://example.com/a").unwrap();
    assert_ne!(get_hash(2, &a), get_hash(12, &b));
    assert_ne!(get_hash(2, &a), get_hash(3, &a));
    assert_eq!(get_hash(2, &a), get_hash(2, &parse_download_url("https://example.com/a-1").unwrap()));
}

#[test]
fn key_length_is_padded_base64_length() {
    let u = parse_download_url("http://x").unwrap();
    // "http://x/-3" has 11 bytes: four groups of three started
    assert_eq!(get_hash(3, &u).len(), 16);
}

#[test]
fn duplicate_is_equal() {
    let u = parse_download_url("https://example.com/a?b#c").unwrap();
    let copy = u.duplicate();
    assert_eq!(copy, u);
    assert_eq!(copy.parsed().as_str(), u.as_str());
}
