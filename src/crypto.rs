//! Authenticated encryption of a payload under a 256-bit key with
//! ChaCha20-Poly1305 and a fresh 96-bit nonce per call.
use vstd::prelude::*;

use chacha20poly1305::aead::{Aead, AeadCore, KeyInit, OsRng};
use chacha20poly1305::{ChaCha20Poly1305, Key, Nonce};

use crate::error::VaultError;

verus! {

/// Key length of the cipher, in bytes.
pub const KEY_LEN: usize = 32;

/// Nonce length of the cipher, in bytes.
pub const NONCE_LEN: usize = 12;

/// Length of the authentication tag appended to every ciphertext.
pub const TAG_LEN: usize = 16;

/// The cipher works in blocks of this many bytes.
pub const CIPHER_BLOCK: u64 = 64;

/// A payload of this many cipher blocks or more is refused.
pub const MAX_CIPHER_BLOCKS: u64 = 0xFFFF_FFFF;

/// The opaque error of `aead::Aead::encrypt` and `decrypt`.
#[verifier::external_type_specification]
#[verifier::external_body]
pub struct ExAeadError(chacha20poly1305::aead::Error);

/// What ChaCha20-Poly1305 decryption of `ct` under `key` and `nonce` yields:
/// the plaintext, or nothing when the tag does not verify.
pub uninterp spec fn chacha_open(key: Seq<u8>, nonce: Seq<u8>, ct: Seq<u8>) -> Option<Seq<u8>>;

/// Whether the cipher accepts a payload of `len` bytes.
pub open spec fn payload_fits(len: nat) -> bool {
    len / (CIPHER_BLOCK as nat) < MAX_CIPHER_BLOCKS as nat
}

/// Relies on `AeadCore::generate_nonce` with the OS random source: twelve
/// random bytes.
#[verifier::external_body]
fn fresh_nonce() -> (r: Vec<u8>)
    ensures
        r@.len() == NONCE_LEN,
{
    ChaCha20Poly1305::generate_nonce(&mut OsRng).to_vec()
}

/// Relies on `Aead::encrypt` of ChaCha20Poly1305: it fails only when the
/// payload reaches `MAX_CIPHER_BLOCKS` blocks, the ciphertext is the
/// plaintext's length plus the tag, and it opens under the same key and
/// nonce to the plaintext.
#[verifier::external_body]
fn chacha_seal(key: &[u8], nonce: &[u8], pt: &[u8]) -> (r: Result<Vec<u8>, chacha20poly1305::aead::Error>)
    requires
        key@.len() == KEY_LEN,
        nonce@.len() == NONCE_LEN,
    ensures
        r is Ok <==> payload_fits(pt@.len()),
        r matches Ok(c) ==> chacha_open(key@, nonce@, c@) == Some(pt@),
        r matches Ok(c) ==> c@.len() == pt@.len() + TAG_LEN,
{
    ChaCha20Poly1305::new(Key::from_slice(key)).encrypt(Nonce::from_slice(nonce), pt)
}

/// Relies on `Aead::decrypt` of ChaCha20Poly1305: the plaintext when the
/// tag verifies, an error otherwise.
#[verifier::external_body]
fn chacha_unseal(key: &[u8], nonce: &[u8], ct: &[u8]) -> (r: Result<Vec<u8>, chacha20poly1305::aead::Error>)
    requires
        key@.len() == KEY_LEN,
        nonce@.len() == NONCE_LEN,
    ensures
        r is Ok <==> chacha_open(key@, nonce@, ct@) is Some,
        r matches Ok(p) ==> chacha_open(key@, nonce@, ct@) == Some(p@),
{
    ChaCha20Poly1305::new(Key::from_slice(key)).decrypt(Nonce::from_slice(nonce), ct)
}

/// `(ciphertext, nonce)` is a possible outcome of encrypting `data` under `key`.
pub open spec fn sealed_by(data: Seq<u8>, key: Seq<u8>, ciphertext: Seq<u8>, nonce: Seq<u8>) -> bool {
    &&& key.len() == KEY_LEN
    &&& nonce.len() == NONCE_LEN
    &&& ciphertext.len() == data.len() + TAG_LEN
    &&& chacha_open(key, nonce, ciphertext) == Some(data)
}

/// What `decrypt` returns.
pub open spec fn decrypt_result(ciphertext: Seq<u8>, key: Seq<u8>, nonce: Seq<u8>) -> Result<Seq<u8>, VaultError> {
    if key.len() != KEY_LEN || nonce.len() != NONCE_LEN {
        Err(VaultError::DecryptionError)
    } else {
        match chacha_open(key, nonce, ciphertext) {
            Some(p) => Ok(p),
            None => Err(VaultError::DecryptionError),
        }
    }
}

/// Encrypts `data` under `key` with a freshly drawn nonce and returns the
/// ciphertext and that nonce.
pub fn encrypt(data: &[u8], key: &[u8]) -> (r: Result<(Vec<u8>, Vec<u8>), VaultError>)
    ensures
        r is Ok <==> key@.len() == KEY_LEN && payload_fits(data@.len()),
        r matches Ok((c, n)) ==> sealed_by(data@, key@, c@, n@),
        r matches Err(e) ==> e == VaultError::EncryptionError,
{
    if key.len() != KEY_LEN {
        return Err(VaultError::EncryptionError);
    }
    let nonce = fresh_nonce();
    match chacha_seal(key, nonce.as_slice(), data) {
        Ok(ciphertext) => Ok((ciphertext, nonce)),
        Err(_) => Err(VaultError::EncryptionError),
    }
}

/// Decrypts `ciphertext` under `key` and `nonce`. Any failure, a key or nonce
/// of the wrong length included, is a `DecryptionError` and yields no bytes.
pub fn decrypt(ciphertext: &[u8], key: &[u8], nonce_bytes: &[u8]) -> (r: Result<Vec<u8>, VaultError>)
    ensures
        match r {
            Ok(p) => decrypt_result(ciphertext@, key@, nonce_bytes@) == Ok::<Seq<u8>, VaultError>(p@),
            Err(e) => decrypt_result(ciphertext@, key@, nonce_bytes@) == Err::<Seq<u8>, VaultError>(e),
        },
{
    if key.len() != KEY_LEN || nonce_bytes.len() != NONCE_LEN {
        return Err(VaultError::DecryptionError);
    }
    match chacha_unseal(key, nonce_bytes, ciphertext) {
        Ok(plaintext) => Ok(plaintext),
        Err(_) => Err(VaultError::DecryptionError),
    }
}

/// Decrypting what `encrypt` produced, with the same key and the nonce it
/// returned, gives back the payload that was encrypted.
pub proof fn lemma_decrypt_inverts_encrypt(data: Seq<u8>, key: Seq<u8>, ciphertext: Seq<u8>, nonce: Seq<u8>)
    requires
        sealed_by(data, key, ciphertext, nonce),
    ensures
        decrypt_result(ciphertext, key, nonce) == Ok::<Seq<u8>, VaultError>(data),
{
}

} // verus!
