use datafall::clock::{current_time_text, time_text};

#[test]
fn time_text_of_instants() {
    assert_eq!(time_text(0, 0), Some("1970-01-01 00:00:00 UTC".to_string()));
    assert_eq!(time_text(86_400, 500_000_000), Some("1970-01-02 00:00:00.500 UTC".to_string()));
    assert_eq!(time_text(u64::MAX, 0), None);
    assert_eq!(time_text(i64::MAX as u64, 0), None);
}

#[test]
fn current_time_is_a_utc_text() {
    let now = current_time_text().unwrap();
    assert!(now.ends_with(" UTC"));
    assert!(now.starts_with("20"));
}
