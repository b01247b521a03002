use clasp::tokens::{
    MAX_TIMESTAMP, TokenRecord, TokenStore, describe_remaining, format_timestamp, remaining_secs,
};
use std::time::Duration;

#[test]
fn test_token_record_creation() {
    let record = TokenRecord::new("cpsk_test".to_string(), vec!["read:/**".to_string()]);
    assert_eq!(record.token, "cpsk_test");
    assert!(!record.is_expired());
}

#[test]
fn test_token_record_expiry() {
    let mut record = TokenRecord::new("cpsk_test".to_string(), vec!["read:/**".to_string()]);

    // Set expiration to the past
    record.expires_at = Some(0);
    assert!(record.is_expired());

    // Set expiration to the future
    record = record.with_expires_in(Duration::from_secs(3600));
    assert!(!record.is_expired());
}

#[test]
fn test_token_store_operations() {
    let mut store = TokenStore::new();
    assert!(store.is_empty());

    let record = TokenRecord::new("cpsk_test".to_string(), vec!["read:/**".to_string()]);
    store.add(record);

    assert_eq!(store.len(), 1);
    assert!(store.get("cpsk_test").is_some());

    store.remove("cpsk_test");
    assert!(store.is_empty());
}

#[test]
fn token_record_builders() {
    let record = TokenRecord::new("t".to_string(), vec![])
        .with_subject("device")
        .with_expires_at(77);
    assert_eq!(record.subject.as_deref(), Some("device"));
    assert_eq!(record.expires_at, Some(77));
    assert!(record.metadata.is_empty());
    assert!(record.is_expired_at(78));
    assert!(!record.is_expired_at(77));
    let r = TokenRecord::new("t".to_string(), vec![]).with_expires_after(10, 5);
    assert_eq!(r.expires_at, Some(15));
    let r = TokenRecord::new("t".to_string(), vec![]).with_expires_after(u64::MAX - 1, 5);
    assert_eq!(r.expires_at, Some(u64::MAX));
    let never = TokenRecord::new("n".to_string(), vec![]);
    assert!(!never.is_expired_at(u64::MAX));
}

#[test]
fn token_store_replace_and_prune() {
    let mut store = TokenStore::new();
    store.add(TokenRecord::new("a".to_string(), vec![]).with_expires_at(10));
    store.add(TokenRecord::new("b".to_string(), vec![]).with_expires_at(100));
    store.add(TokenRecord::new("c".to_string(), vec![]));
    store.add(TokenRecord::new("a".to_string(), vec!["x".to_string()]).with_expires_at(20));
    assert_eq!(store.len(), 3);
    assert_eq!(store.get("a").unwrap().scopes, vec!["x".to_string()]);
    assert_eq!(store.list().len(), 3);
    assert_eq!(store.prune_expired_at(50), 1);
    assert!(store.get("a").is_none());
    assert!(store.get("b").is_some());
    assert!(store.get("c").is_some());
    assert_eq!(store.prune_expired_at(50), 0);
    let removed = store.remove("b").expect("present");
    assert_eq!(removed.token, "b");
    assert!(store.remove("b").is_none());
    assert_eq!(store.len(), 1);
}

#[test]
fn token_prune_now() {
    let mut store = TokenStore::new();
    store.add(TokenRecord::new("old".to_string(), vec![]).with_expires_at(0));
    store.add(TokenRecord::new("new".to_string(), vec![]));
    assert_eq!(store.prune_expired(), 1);
    assert_eq!(store.len(), 1);
}

#[test]
fn timestamp_descriptions() {
    assert_eq!(describe_remaining(None), "expired");
    assert_eq!(describe_remaining(Some(59)), "in 59 seconds");
    assert_eq!(describe_remaining(Some(60)), "in 1 minutes");
    assert_eq!(describe_remaining(Some(7199)), "in 1 hours");
    assert_eq!(describe_remaining(Some(86400 * 3 + 5)), "in 3 days");
    assert_eq!(format_timestamp(0), "expired");
    assert!(format_timestamp(MAX_TIMESTAMP).ends_with(" days"));
}

#[test]
fn token_record_created_at_given_time() {
    let record = TokenRecord::new_at("cpsk_test".to_string(), vec!["read:/**".to_string()], 1_700_000_000);
    assert_eq!(record.token, "cpsk_test");
    assert_eq!(record.scopes, vec!["read:/**".to_string()]);
    assert!(record.subject.is_none());
    assert!(record.expires_at.is_none());
    assert!(record.metadata.is_empty());
    assert_eq!(record.created_at, 1_700_000_000);
    assert!(!record.is_expired_at(u64::MAX));
}

#[test]
fn remaining_seconds_from_a_reading() {
    assert_eq!(remaining_secs(100, 40, 0), Some(60));
    assert_eq!(remaining_secs(100, 40, 5), Some(59));
    assert_eq!(remaining_secs(100, 100, 0), Some(0));
    assert_eq!(remaining_secs(100, 100, 1), None);
    assert_eq!(remaining_secs(99, 100, 0), None);
    assert_eq!(describe_remaining(remaining_secs(7300, 100, 0)), "in 2 hours");
}

#[test]
fn token_record_created_now() {
    let secs = || {
        std::time::SystemTime::now()
            .duration_since(std::time::UNIX_EPOCH)
            .unwrap()
            .as_secs()
    };
    let before = secs();
    let record = TokenRecord::new("t".to_string(), vec![]);
    let after = secs();
    assert!(before <= record.created_at && record.created_at <= after);
}

#[test]
fn prune_at_counts_expired_records() {
    let mut store = TokenStore::new();
    store.add(TokenRecord::new_at("a".to_string(), vec![], 0).with_expires_at(10));
    store.add(TokenRecord::new_at("b".to_string(), vec![], 0).with_expires_at(20));
    store.add(TokenRecord::new_at("c".to_string(), vec![], 0).with_expires_at(100));
    store.add(TokenRecord::new_at("d".to_string(), vec![], 0));
    store.add(TokenRecord::new_at("a".to_string(), vec![], 0).with_expires_at(5));
    assert_eq!(store.len(), 4);
    assert_eq!(store.prune_expired_at(50), 2);
    assert_eq!(store.len(), 2);
    assert!(store.get("c").is_some() && store.get("d").is_some());
    assert_eq!(store.prune_expired_at(50), 0);
}
