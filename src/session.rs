//! The read-modify-write steps of a secret operation. Loading and storing
//! the two files is the caller's part; these functions decide what is read
//! from them and what is written back, so that the stored nonce always
//! belongs to the stored ciphertext.
use vstd::prelude::*;
use vstd::utf8::{decode_utf8, encode_utf8, valid_utf8};

use crate::crypto::{decrypt, decrypt_result, encrypt, payload_fits, sealed_by, KEY_LEN, NONCE_LEN};
use crate::encoding::{base64_decoded, base64_encoded, decode_base64, encode_base64, utf8_text};
use crate::error::VaultError;
use crate::kdf::{
    argon2_accepts, derive_key, derive_key_result, generate_salt, is_salt_text, key_outcome,
    validate_salt, GENERATED_SALT_TEXT,
};
use crate::models::{set_record, Vault};
use crate::password::PasswordStep;

verus! {

/// What `get_encryption_key` returns for a vault's salt field and a password.
pub open spec fn vault_key_result(salt_field: Seq<char>, password: Seq<char>) -> Result<Seq<u8>, VaultError> {
    match base64_decoded(salt_field) {
        None => Err(VaultError::KeyDerivationError),
        Some(b) => if !valid_utf8(b) || !is_salt_text(decode_utf8(b)) {
            Err(VaultError::KeyDerivationError)
        } else {
            derive_key_result(password, decode_utf8(b))
        },
    }
}

/// Derives the key of `vault_metadata` from the master password: the salt
/// field is decoded from base64, must be a well-formed salt text, and keys
/// Argon2id. Every failure here is a `KeyDerivationError`.
pub fn get_encryption_key(vault_metadata: &Vault, password: &str) -> (r: Result<[u8; 32], VaultError>)
    ensures
        key_outcome(r) == vault_key_result(vault_metadata.salt@, password@),
{
    let salt_bytes = match decode_base64(vault_metadata.salt.as_str()) {
        Ok(b) => b,
        Err(_) => return Err(VaultError::KeyDerivationError),
    };
    let salt_text = match utf8_text(salt_bytes.as_slice()) {
        Some(t) => t,
        None => return Err(VaultError::KeyDerivationError),
    };
    match validate_salt(salt_text.as_str()) {
        Ok(()) => {},
        Err(e) => return Err(e),
    }
    derive_key(password, salt_text.as_str())
}

/// What `decrypt_secrets` returns: `None` for a vault never written to, the
/// serialized collection otherwise.
pub open spec fn opened_payload(nonce: Option<Seq<char>>, blob: Seq<u8>, key: Seq<u8>) -> Result<Option<Seq<u8>>, VaultError> {
    if blob.len() == 0 {
        Ok(None)
    } else {
        match nonce {
            None => Err(VaultError::DecryptionError),
            Some(text) => match base64_decoded(text) {
                None => Err(VaultError::SerializationError),
                Some(n) => if n.len() != NONCE_LEN {
                    Err(VaultError::SerializationError)
                } else {
                    match decrypt_result(blob, key, n) {
                        Ok(p) => Ok(Some(p)),
                        Err(e) => Err(e),
                    }
                },
            },
        }
    }
}

/// The nonce field of a vault, as text.
pub open spec fn nonce_text(v: Vault) -> Option<Seq<char>> {
    match v.nonce {
        Some(t) => Some(t@),
        None => None,
    }
}

/// The payload of a result of `decrypt_secrets`, as bytes.
pub open spec fn payload_outcome(r: Result<Option<Vec<u8>>, VaultError>) -> Result<Option<Seq<u8>>, VaultError> {
    match r {
        Ok(Some(p)) => Ok(Some(p@)),
        Ok(None) => Ok(None),
        Err(e) => Err(e),
    }
}

/// Opens the stored blob of a vault. An empty blob is a vault that was never
/// written to: `None`, the empty collection. Otherwise the nonce of the
/// metadata must be present (`DecryptionError` if not) and be the base64 of
/// a nonce of the cipher's length (`SerializationError` if not: malformed
/// metadata), and the blob must authenticate
/// under the key (`DecryptionError` if not). On success the result is the
/// serialized collection.
pub fn decrypt_secrets(vault_metadata: &Vault, encrypted_data: &[u8], encryption_key: &[u8]) -> (r: Result<Option<Vec<u8>>, VaultError>)
    ensures
        payload_outcome(r) == opened_payload(nonce_text(*vault_metadata), encrypted_data@, encryption_key@),
{
    if encrypted_data.len() == 0 {
        return Ok(None);
    }
    let nonce_base64 = match &vault_metadata.nonce {
        Some(n) => n,
        None => return Err(VaultError::DecryptionError),
    };
    let nonce = match decode_base64(nonce_base64.as_str()) {
        Ok(n) => n,
        Err(_) => return Err(VaultError::SerializationError),
    };
    if nonce.len() != NONCE_LEN {
        return Err(VaultError::SerializationError);
    }
    match decrypt(encrypted_data, encryption_key, nonce.as_slice()) {
        Ok(p) => Ok(Some(p)),
        Err(e) => Err(e),
    }
}

/// The later of two times.
pub open spec fn later_of(a: i64, b: i64) -> i64 {
    if b > a { b } else { a }
}

/// `after` is `before` with a new ciphertext `blob` of `payload` committed
/// at time `now`: the nonce field holds the base64 of the very nonce that
/// produced `blob`, `updated_at` moves to `now` but never back, and nothing
/// else changed.
pub open spec fn committed(before: Vault, after: Vault, payload: Seq<u8>, key: Seq<u8>, blob: Seq<u8>, now: i64) -> bool {
    &&& after.name == before.name
    &&& after.created_at == before.created_at
    &&& after.salt == before.salt
    &&& after.updated_at == later_of(before.updated_at, now)
    &&& after.nonce matches Some(t) && base64_decoded(t@) matches Some(n) && sealed_by(payload, key, blob, n)
}

/// Encrypts the serialized collection `payload` under a fresh nonce and
/// records that nonce and the time of the change in the metadata, in one
/// step (a clock that went back leaves `updated_at` where it was):
/// the returned ciphertext and the updated metadata are to be stored
/// together. On failure (`EncryptionError`: wrong key length, or a payload
/// too large for the cipher) the metadata is left as it was.
pub fn seal_secrets(vault_metadata: &mut Vault, payload: &[u8], encryption_key: &[u8], now: i64) -> (r: Result<Vec<u8>, VaultError>)
    ensures
        r is Ok <==> encryption_key@.len() == KEY_LEN && payload_fits(payload@.len()),
        r matches Ok(blob) ==> committed(*old(vault_metadata), *final(vault_metadata), payload@, encryption_key@, blob@, now),
        r matches Err(e) ==> e == VaultError::EncryptionError && *final(vault_metadata) == *old(vault_metadata),
{
    match encrypt(payload, encryption_key) {
        Ok((ciphertext, nonce)) => {
            vault_metadata.nonce = Some(encode_base64(nonce.as_slice()));
            if now > vault_metadata.updated_at {
                vault_metadata.updated_at = now;
            }
            Ok(ciphertext)
        },
        Err(e) => Err(e),
    }
}

/// The metadata of a new vault named `name`, created at `now` with the salt
/// text `salt_text`; it has no nonce yet.
pub fn new_vault(name: &str, salt_text: &str, now: i64) -> (r: Vault)
    ensures
        r.name@ == name@,
        r.created_at == now,
        r.updated_at == now,
        r.salt@ == base64_encoded(encode_utf8(salt_text@)),
        base64_decoded(r.salt@) == Some(encode_utf8(salt_text@)),
        r.nonce is None,
{
    Vault {
        name: name.to_owned(),
        created_at: now,
        updated_at: now,
        salt: encode_base64(salt_text.as_bytes()),
        nonce: None,
    }
}

/// Decides the creation of the vault `name`. `exists` is the file system's
/// answer for the vault's directory and `password` the outcome of choosing
/// its master password. An existing name is refused with
/// `VaultAlreadyExists` whatever the password, so the answer can be had
/// before any password is asked for; a password that was not accepted gives
/// `PasswordRejected`. Only on `Ok` is there anything to write: the
/// directory and this metadata, with a freshly generated salt and no nonce.
pub fn create_vault(name: &str, exists: bool, password: PasswordStep, now: i64) -> (r: Result<Vault, VaultError>)
    ensures
        r is Ok <==> !exists && password == PasswordStep::Accept,
        exists ==> r == Err::<Vault, VaultError>(VaultError::VaultAlreadyExists),
        !exists && password != PasswordStep::Accept ==> r == Err::<Vault, VaultError>(VaultError::PasswordRejected),
        r matches Ok(v) ==> v.name@ == name@ && v.created_at == now && v.updated_at == now && v.nonce is None,
        r matches Ok(v) ==> base64_decoded(v.salt@) matches Some(b) && valid_utf8(b) && is_salt_text(decode_utf8(b))
            && decode_utf8(b).len() == GENERATED_SALT_TEXT,
{
    if exists {
        return Err(VaultError::VaultAlreadyExists);
    }
    match password {
        PasswordStep::Accept => {},
        _ => return Err(VaultError::PasswordRejected),
    }
    let salt = generate_salt();
    let r = new_vault(name, salt.as_str(), now);
    proof {
        vstd::utf8::encode_utf8_valid_utf8(salt@);
        vstd::utf8::encode_utf8_decode_utf8(salt@);
    }
    Ok(r)
}

/// What is committed by `seal_secrets` opens again with the same key: the
/// payload read back is the payload written.
pub proof fn lemma_committed_payload_opens(
    before: Vault,
    after: Vault,
    payload: Seq<u8>,
    key: Seq<u8>,
    blob: Seq<u8>,
    now: i64,
)
    requires
        committed(before, after, payload, key, blob, now),
    ensures
        opened_payload(nonce_text(after), blob, key) == Ok::<Option<Seq<u8>>, VaultError>(Some(payload)),
{
}

/// A vault that was never written to opens, under any key, to the empty
/// collection rather than to an error.
pub proof fn lemma_unwritten_vault_opens_empty(nonce: Option<Seq<char>>, key: Seq<u8>)
    ensures
        opened_payload(nonce, Seq::<u8>::empty(), key) == Ok::<Option<Seq<u8>>, VaultError>(None),
{
}

/// Setting a secret and reading the key back gives the value just set.
pub proof fn lemma_set_then_get(
    secrets: Map<Seq<char>, (Seq<char>, i64)>,
    key: Seq<char>,
    value: Seq<char>,
    now: i64,
)
    ensures
        secrets.insert(key, set_record(secrets, key, value, now)).contains_key(key),
        secrets.insert(key, set_record(secrets, key, value, now))[key].0 == value,
{
}

/// Once a secret is deleted, reading its key finds nothing.
pub proof fn lemma_delete_then_get(secrets: Map<Seq<char>, (Seq<char>, i64)>, key: Seq<char>)
    ensures
        !secrets.remove(key).contains_key(key),
{
}

/// The salt of a new vault decodes to the salt text it was made with, so
/// opening it derives the key from that text.
pub proof fn lemma_new_vault_key(salt_field: Seq<char>, salt_text: Seq<char>, password: Seq<char>)
    requires
        is_salt_text(salt_text),
        base64_decoded(salt_field) == Some(encode_utf8(salt_text)),
    ensures
        vault_key_result(salt_field, password) == derive_key_result(password, salt_text),
{
    vstd::utf8::encode_utf8_valid_utf8(salt_text);
    vstd::utf8::encode_utf8_decode_utf8(salt_text);
}

/// A vault made by `create_vault` always yields a key: its salt is long
/// enough for Argon2, so any password that Argon2 accepts derives one.
pub proof fn lemma_created_vault_has_key(salt_field: Seq<char>, password: Seq<char>)
    requires
        base64_decoded(salt_field) matches Some(b) && valid_utf8(b) && is_salt_text(decode_utf8(b))
            && decode_utf8(b).len() == GENERATED_SALT_TEXT,
        encode_utf8(password).len() <= crate::kdf::MAX_INPUT_BYTES,
    ensures
        vault_key_result(salt_field, password) is Ok,
{
    let b = base64_decoded(salt_field)->0;
    let t = decode_utf8(b);
    assert(vstd::utf8::is_ascii_chars(t)) by {
        assert forall|i: int| 0 <= i < t.len() implies '\0' <= #[trigger] t[i] <= '\u{7f}' by {
            assert(crate::kdf::is_salt_char(t[i]));
        }
    }
    vstd::utf8::is_ascii_chars_encode_utf8(t);
    assert(argon2_accepts(encode_utf8(password).len(), encode_utf8(t).len()));
}

} // verus!
