use hush::error::VaultError;
use hush::kdf::derive_key;
use hush::models::{Secret, SecretCollection, Vault};
use hush::session::{decrypt_secrets, get_encryption_key, new_vault, seal_secrets};
use serde_json::Value;

const SALT: &str = "c2FsdHNhbHRzYWx0";

fn to_payload(secrets: &SecretCollection) -> Vec<u8> {
    let mut map = serde_json::Map::new();
    for s in secrets.entries() {
        let mut record = serde_json::Map::new();
        record.insert("key".to_string(), Value::String(s.key.clone()));
        record.insert("value".to_string(), Value::String(s.value.clone()));
        record.insert("created_at".to_string(), Value::from(s.created_at));
        map.insert(s.key.clone(), Value::Object(record));
    }
    serde_json::to_vec(&Value::Object(map)).unwrap()
}

fn from_payload(payload: Option<Vec<u8>>) -> SecretCollection {
    let mut secrets = SecretCollection::new();
    if let Some(bytes) = payload {
        let value: Value = serde_json::from_slice(&bytes).unwrap();
        for (key, record) in value.as_object().unwrap() {
            secrets.insert(Secret {
                key: key.clone(),
                value: record["value"].as_str().unwrap().to_string(),
                created_at: record["created_at"].as_i64().unwrap(),
            });
        }
    }
    secrets
}

#[test]
fn new_vault_has_no_nonce_and_encoded_salt() {
    let v = new_vault("personal", SALT, 1000);
    assert_eq!(v.name, "personal");
    assert_eq!(v.created_at, 1000);
    assert_eq!(v.updated_at, 1000);
    assert_eq!(v.salt, "YzJGc2RITmhiSFJ6WVd4MA==");
    assert!(v.nonce.is_none());
}

#[test]
fn vault_key_matches_key_of_its_salt() {
    let v = new_vault("personal", SALT, 1000);
    let key = get_encryption_key(&v, "correcthorse1").unwrap();
    assert_eq!(key, derive_key("correcthorse1", SALT).unwrap());
}

#[test]
fn malformed_salt_field_fails_key_derivation() {
    let mut v = new_vault("personal", SALT, 1000);
    v.salt = "not base64!".to_string();
    assert_eq!(get_encryption_key(&v, "correcthorse1"), Err(VaultError::KeyDerivationError));
    // base64 of "ab=d": not a salt text
    v.salt = "YWI9ZA==".to_string();
    assert_eq!(get_encryption_key(&v, "correcthorse1"), Err(VaultError::KeyDerivationError));
    // base64 of "abcd": a salt text, too short for Argon2
    v.salt = "YWJjZA==".to_string();
    assert_eq!(get_encryption_key(&v, "correcthorse1"), Err(VaultError::KeyDerivationError));
}

#[test]
fn unwritten_vault_opens_empty() {
    let v = new_vault("v", SALT, 1);
    assert_eq!(decrypt_secrets(&v, &[], &[0u8; 32]), Ok(None));
    let secrets = from_payload(None);
    assert!(secrets.is_empty());
    assert_eq!(secrets.lookup("k"), Err(VaultError::SecretNotFound));
}

#[test]
fn blob_without_nonce_is_an_error() {
    let v = new_vault("v", SALT, 1);
    assert_eq!(decrypt_secrets(&v, &[1, 2, 3], &[0u8; 32]), Err(VaultError::DecryptionError));
}

#[test]
fn malformed_nonce_is_a_serialization_error() {
    let mut v = new_vault("v", SALT, 1);
    v.nonce = Some("%%%".to_string());
    assert_eq!(decrypt_secrets(&v, &[1, 2, 3], &[0u8; 32]), Err(VaultError::SerializationError));
}

#[test]
fn seal_then_open_gives_payload_back() {
    let key = [3u8; 32];
    let mut v = new_vault("v", SALT, 1);
    let blob = seal_secrets(&mut v, b"{}", &key, 50).unwrap();
    assert_eq!(v.updated_at, 50);
    assert_eq!(v.created_at, 1);
    assert!(v.nonce.is_some());
    assert_eq!(decrypt_secrets(&v, &blob, &key), Ok(Some(b"{}".to_vec())));
}

#[test]
fn every_seal_replaces_the_nonce() {
    let key = [3u8; 32];
    let mut v = new_vault("v", SALT, 1);
    let first = seal_secrets(&mut v, b"{}", &key, 2).unwrap();
    let first_nonce = v.nonce.clone();
    let second = seal_secrets(&mut v, b"{}", &key, 3).unwrap();
    assert_ne!(v.nonce, first_nonce);
    assert_eq!(decrypt_secrets(&v, &second, &key), Ok(Some(b"{}".to_vec())));
    // the old blob does not open under the new nonce
    assert_eq!(decrypt_secrets(&v, &first, &key), Err(VaultError::DecryptionError));
}

#[test]
fn failed_seal_leaves_metadata_unchanged() {
    let mut v = new_vault("v", SALT, 1);
    assert_eq!(seal_secrets(&mut v, b"{}", &[1u8; 5], 9), Err(VaultError::EncryptionError));
    assert_eq!(v.updated_at, 1);
    assert!(v.nonce.is_none());
}

#[test]
fn wrong_password_fails_to_decrypt() {
    let mut v = new_vault("v", SALT, 1);
    let key = get_encryption_key(&v, "correcthorse1").unwrap();
    let blob = seal_secrets(&mut v, b"{\"a\":1}", &key, 2).unwrap();
    let wrong = get_encryption_key(&v, "correcthorse2").unwrap();
    assert_eq!(decrypt_secrets(&v, &blob, &wrong), Err(VaultError::DecryptionError));
}

#[test]
fn personal_vault_scenario() {
    let mut v = new_vault("personal", SALT, 10);
    let key = get_encryption_key(&v, "correcthorse1").unwrap();

    let mut secrets = from_payload(decrypt_secrets(&v, &[], &key).unwrap());
    secrets.set("github", "tok_abc123", 11);
    let blob = seal_secrets(&mut v, &to_payload(&secrets), &key, 11).unwrap();

    let key = get_encryption_key(&v, "correcthorse1").unwrap();
    let secrets = from_payload(decrypt_secrets(&v, &blob, &key).unwrap());
    assert_eq!(secrets.lookup("github"), Ok("tok_abc123".to_string()));

    let mut secrets = secrets;
    assert_eq!(secrets.remove("github"), Ok(()));
    let blob = seal_secrets(&mut v, &to_payload(&secrets), &key, 12).unwrap();

    let secrets = from_payload(decrypt_secrets(&v, &blob, &key).unwrap());
    assert_eq!(secrets.lookup("github"), Err(VaultError::SecretNotFound));
}

#[test]
fn set_then_get_through_the_vault() {
    let mut v: Vault = new_vault("v", SALT, 1);
    let key = [9u8; 32];
    let mut secrets = SecretCollection::new();
    secrets.set("k", "val", 2);
    let blob = seal_secrets(&mut v, &to_payload(&secrets), &key, 2).unwrap();
    let back = from_payload(decrypt_secrets(&v, &blob, &key).unwrap());
    assert_eq!(back.lookup("k"), Ok("val".to_string()));
}

#[test]
fn nonce_of_wrong_length_is_a_serialization_error() {
    let mut v = new_vault("v", SALT, 1);
    // base64 of eight bytes: a nonce must have twelve
    v.nonce = Some("AAAAAAAAAAA=".to_string());
    assert_eq!(decrypt_secrets(&v, &[1, 2, 3], &[0u8; 32]), Err(VaultError::SerializationError));
}

#[test]
fn seal_never_moves_update_time_back() {
    let key = [3u8; 32];
    let mut v = new_vault("v", SALT, 100);
    let blob = seal_secrets(&mut v, b"{}", &key, 40).unwrap();
    assert_eq!(v.updated_at, 100);
    assert_eq!(decrypt_secrets(&v, &blob, &key), Ok(Some(b"{}".to_vec())));
    seal_secrets(&mut v, b"{}", &key, 150).unwrap();
    assert_eq!(v.updated_at, 150);
}

#[test]
fn encoded_nonce_is_padded_base64() {
    let mut v = new_vault("v", SALT, 1);
    seal_secrets(&mut v, b"{}", &[3u8; 32], 2).unwrap();
    assert_eq!(v.nonce.unwrap().len(), 16);
}
