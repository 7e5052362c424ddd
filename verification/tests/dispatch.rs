use valor::dispatch::{correlation_id, log_summary, should_log};

#[test]
fn existing_correlation_id_is_kept() {
    let id = correlation_id(Some(b"req-42".to_vec()));
    assert_eq!(id, b"req-42".to_vec());
}

#[test]
fn missing_correlation_id_gets_a_fresh_uuid() {
    let id = correlation_id(None);
    assert_eq!(id.len(), 36);
    // a hyphenated UUID, not a constant placeholder
    assert_eq!(id.iter().filter(|b| **b == b'-').count(), 4);
    let other = correlation_id(None);
    assert_ne!(id, other);
}

#[test]
fn health_path_is_exempt_from_logging() {
    assert!(!should_log(&b"/_health".to_vec()));
    assert!(!should_log(&b"/_health/live".to_vec()));
    assert!(should_log(&b"/api".to_vec()));
    assert!(should_log(&b"/_heal".to_vec()));
    assert!(should_log(&b"".to_vec()));
}

#[test]
fn log_summary_skips_health_and_keeps_headers() {
    assert!(log_summary(&b"/_health".to_vec(), None, None, 200).is_none());
    let e = log_summary(
        &b"/api/x".to_vec(),
        Some(b"api".to_vec()),
        Some(b"cid-1".to_vec()),
        503,
    )
    .expect("non-health requests are logged");
    assert_eq!(e.plugin, b"api".to_vec());
    assert_eq!(e.correlation, b"cid-1".to_vec());
    assert_eq!(e.status, 503);
}

#[test]
fn log_summary_fills_placeholders() {
    let e = log_summary(&b"/api".to_vec(), None, None, 404).expect("logged");
    assert_eq!(e.plugin, b"unkown".to_vec());
    assert_eq!(e.correlation, b"-".to_vec());
    assert_eq!(e.status, 404);
}
