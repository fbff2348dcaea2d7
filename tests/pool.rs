use weldr::pool::BackendPool;
use weldr::wire::{encode, BackendChangeEvent, DecodeError};

#[test]
fn add_is_idempotent() {
    let mut p = BackendPool::new();
    assert!(p.add("http://a".to_string()));
    assert!(!p.add("http://a".to_string()));
    assert_eq!(p.len(), 1);
    assert_eq!(p.count(&"http://a".to_string()), 1);
}

#[test]
fn remove_takes_url_out() {
    let mut p = BackendPool::new();
    p.add("http://a".to_string());
    p.add("http://b".to_string());
    assert!(p.remove(&"http://a".to_string()));
    assert!(!p.remove(&"http://a".to_string()));
    assert!(!p.contains(&"http://a".to_string()));
    assert!(p.contains(&"http://b".to_string()));
    assert_eq!(p.len(), 1);
}

#[test]
fn push_message_applies_events() {
    let mut p = BackendPool::new();
    let add = encode(&BackendChangeEvent::add("http://a".to_string()));
    assert_eq!(p.push_message(&add), Ok(()));
    assert_eq!(p.push_message(&add), Ok(()));
    assert_eq!(p.count(&"http://a".to_string()), 1);
    let rm = encode(&BackendChangeEvent::remove("http://a".to_string()));
    assert_eq!(p.push_message(&rm), Ok(()));
    assert_eq!(p.len(), 0);
}

#[test]
fn push_message_drops_malformed_payload() {
    let mut p = BackendPool::new();
    p.add("http://a".to_string());
    assert_eq!(p.push_message(&[9, 0, b'x']), Err(DecodeError::UnknownVersion));
    assert_eq!(p.len(), 1);
}

#[test]
fn apply_reports_change() {
    let mut p = BackendPool::new();
    assert!(p.apply(BackendChangeEvent::add("u".to_string())));
    assert!(!p.apply(BackendChangeEvent::add("u".to_string())));
    assert!(p.apply(BackendChangeEvent::remove("u".to_string())));
    assert!(!p.apply(BackendChangeEvent::remove("u".to_string())));
}
