use hush::error::VaultError;
use hush::models::{Secret, SecretCollection};

#[test]
fn set_then_lookup_returns_value() {
    let mut secrets = SecretCollection::new();
    secrets.set("k", "val", 100);
    assert_eq!(secrets.lookup("k"), Ok("val".to_string()));
}

#[test]
fn remove_then_lookup_fails() {
    let mut secrets = SecretCollection::new();
    secrets.set("k", "val", 100);
    assert_eq!(secrets.remove("k"), Ok(()));
    assert_eq!(secrets.lookup("k"), Err(VaultError::SecretNotFound));
    assert!(secrets.is_empty());
}

#[test]
fn empty_collection_has_no_secret() {
    let secrets = SecretCollection::new();
    assert!(secrets.is_empty());
    assert_eq!(secrets.lookup("anything"), Err(VaultError::SecretNotFound));
    assert_eq!(secrets.lookup(""), Err(VaultError::SecretNotFound));
}

#[test]
fn remove_missing_key_fails() {
    let mut secrets = SecretCollection::new();
    secrets.set("a", "1", 1);
    assert_eq!(secrets.remove("b"), Err(VaultError::SecretNotFound));
    assert_eq!(secrets.lookup("a"), Ok("1".to_string()));
}

#[test]
fn overwrite_keeps_creation_time() {
    let mut secrets = SecretCollection::new();
    secrets.set("k", "old", 100);
    secrets.set("k", "new", 200);
    assert_eq!(secrets.lookup("k"), Ok("new".to_string()));
    let entries = secrets.entries();
    assert_eq!(entries.len(), 1);
    assert_eq!(entries[0].created_at, 100);
    assert_eq!(entries[0].value, "new");
}

#[test]
fn keys_stay_unique_and_independent() {
    let mut secrets = SecretCollection::new();
    secrets.set("a", "1", 1);
    secrets.set("b", "2", 2);
    secrets.set("a", "3", 3);
    assert_eq!(secrets.entries().len(), 2);
    assert_eq!(secrets.lookup("a"), Ok("3".to_string()));
    assert_eq!(secrets.lookup("b"), Ok("2".to_string()));
    assert_eq!(secrets.remove("a"), Ok(()));
    assert_eq!(secrets.lookup("b"), Ok("2".to_string()));
    assert_eq!(secrets.entries().len(), 1);
}

#[test]
fn insert_replaces_whole_entry() {
    let mut secrets = SecretCollection::new();
    secrets.insert(Secret { key: "k".to_string(), value: "v1".to_string(), created_at: 5 });
    secrets.insert(Secret { key: "k".to_string(), value: "v2".to_string(), created_at: 9 });
    let entries = secrets.entries();
    assert_eq!(entries.len(), 1);
    assert_eq!(entries[0].created_at, 9);
    assert_eq!(secrets.lookup("k"), Ok("v2".to_string()));
}
