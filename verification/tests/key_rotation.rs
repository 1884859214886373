use security_core::security::key_rotation::{KeyStatus, KeyStore};
use security_core::time::Timestamp;

#[test]
fn test_key_store_creation() {
    let store = KeyStore::new();
    assert_eq!(store.get_current_version(), 1);
    assert!(store.get_current_key().is_ok());
}

#[test]
fn test_key_rotation() {
    let mut store = KeyStore::new();
    let old_version = store.get_current_version();

    let new_version = store.rotate_key().unwrap();
    assert_eq!(new_version, old_version + 1);
    assert_eq!(store.get_current_version(), new_version);
}

#[test]
fn test_get_key_by_version() {
    let mut store = KeyStore::new();
    store.rotate_key().unwrap();

    // Just verify both versions exist
    assert!(store.get_key_by_version(1).is_ok());
    assert!(store.get_key_by_version(2).is_ok());
}

#[test]
fn test_retire_old_keys() {
    let mut store = KeyStore::new();
    store.rotate_key().unwrap();
    store.rotate_key().unwrap();
    store.rotate_key().unwrap();

    assert_eq!(store.key_count(), 4);
    store.retire_old_keys(2);
    assert_eq!(store.key_count(), 2);
}

#[test]
fn test_log_rotation() {
    let mut store = KeyStore::new();
    store.log_rotation(1, 2, 100);

    let history = store.get_rotation_history();
    assert_eq!(history.len(), 1);
    assert_eq!(history[0].old_version, 1);
    assert_eq!(history[0].new_version, 2);
    assert_eq!(history[0].credentials_migrated, 100);
}

#[test]
fn key_rotation_preserves_access() {
    let mut store = KeyStore::new();
    assert_eq!(store.get_current_version(), 1);
    let first = store.get_key_by_version(1).unwrap();

    assert_eq!(store.rotate_key(), Ok(2));
    assert_eq!(store.get_key_by_version(1), Ok(first));
    assert!(store.get_key_by_version(2).is_ok());
    assert_eq!(store.get_current_key(), store.get_key_by_version(2));

    store.retire_old_keys(1);
    assert_eq!(store.key_count(), 1);
    assert_eq!(store.get_key_by_version(1), Err("Key version not found".to_string()));
    assert!(store.get_key_by_version(2).is_ok());
    assert_eq!(store.get_current_version(), 2);
}

#[test]
fn rotation_with_given_material() {
    let t = Timestamp::new(10, 0);
    let mut store = KeyStore::with_key([1u8; 32], t);
    assert_eq!(store.get_current_key(), Ok([1u8; 32]));
    assert_eq!(store.rotate_key_with([2u8; 32], t), Ok(2));
    assert_eq!(store.rotate_key_with([3u8; 32], t), Ok(3));
    assert_eq!(store.get_key_by_version(1), Ok([1u8; 32]));
    assert_eq!(store.get_key_by_version(2), Ok([2u8; 32]));
    assert_eq!(store.get_key_by_version(3), Ok([3u8; 32]));
    assert_eq!(store.get_current_key(), Ok([3u8; 32]));
    assert_eq!(store.get_key_by_version(4), Err("Key version not found".to_string()));
    assert_eq!(store.get_key_by_version(0), Err("Key version not found".to_string()));
    assert_eq!(store.key_count(), 3);
}

#[test]
fn retire_keeps_the_latest_versions() {
    let t = Timestamp::new(10, 0);
    let mut store = KeyStore::with_key([1u8; 32], t);
    for i in 2..=5u8 {
        store.rotate_key_with([i; 32], t).unwrap();
    }
    store.retire_old_keys(9);
    assert_eq!(store.key_count(), 5);
    store.retire_old_keys(5);
    assert_eq!(store.key_count(), 5);
    store.retire_old_keys(3);
    assert_eq!(store.key_count(), 3);
    assert!(store.get_key_by_version(1).is_err());
    assert!(store.get_key_by_version(2).is_err());
    assert_eq!(store.get_key_by_version(3), Ok([3u8; 32]));
    assert_eq!(store.get_key_by_version(5), Ok([5u8; 32]));
    // retiring again with the same number changes nothing
    store.retire_old_keys(3);
    assert_eq!(store.key_count(), 3);
    // rotation after retirement goes on counting
    assert_eq!(store.rotate_key_with([6u8; 32], t), Ok(6));
    store.retire_old_keys(1);
    assert_eq!(store.key_count(), 1);
    assert_eq!(store.get_current_key(), Ok([6u8; 32]));
}

#[test]
fn retire_everything_leaves_no_current_key() {
    let mut store = KeyStore::with_key([1u8; 32], Timestamp::new(0, 0));
    store.retire_old_keys(0);
    assert_eq!(store.key_count(), 0);
    assert_eq!(store.get_current_key(), Err("Current key not found".to_string()));
    assert_eq!(store.get_current_version(), 1);
    assert_eq!(store.rotate_key(), Ok(2));
    assert_eq!(store.key_count(), 1);
    assert!(store.get_current_key().is_ok());
}

#[test]
fn fresh_keys_differ() {
    let mut store = KeyStore::new();
    store.rotate_key().unwrap();
    assert_ne!(store.get_key_by_version(1), store.get_key_by_version(2));
    assert_ne!(store.get_current_key(), Ok([0u8; 32]));
}

#[test]
fn rotation_history_is_appended_in_order() {
    let mut store = KeyStore::new();
    let t = Timestamp::new(99, 1);
    store.log_rotation_at(1, 2, 10, t);
    store.log_rotation(2, 3, 20);
    let history = store.get_rotation_history();
    assert_eq!(history.len(), 2);
    assert_eq!(history[0].timestamp, t);
    assert_eq!(history[0].status, "completed");
    assert_eq!(history[0].credentials_migrated, 10);
    assert_eq!(history[1].old_version, 2);
    assert_eq!(history[1].new_version, 3);
    assert_eq!(history[1].status, "completed");
    assert_eq!(store.get_current_version(), 1);
}

#[test]
fn key_status_values_are_distinct() {
    assert_ne!(KeyStatus::Active, KeyStatus::Rotating);
    assert_ne!(KeyStatus::Rotating, KeyStatus::Retired);
}
