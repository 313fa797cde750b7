//! Master-password key derivation with Argon2id at the crate's default cost
//! (version 0x13, 19456 KiB of memory, two passes, one lane), and the
//! per-vault salt it is keyed with.
use vstd::prelude::*;
use vstd::utf8::encode_utf8;

use argon2::password_hash::rand_core::OsRng;
use argon2::password_hash::SaltString;
use argon2::Argon2;

use crate::error::VaultError;

verus! {

/// Length of a derived key, in bytes.
pub const DERIVED_KEY_LEN: usize = 32;

/// Argon2 refuses a salt shorter than this many bytes.
pub const MIN_SALT_BYTES: usize = 8;

/// Argon2 refuses a password or salt longer than this many bytes.
pub const MAX_INPUT_BYTES: u64 = 0xFFFF_FFFF;

/// Shortest salt text the PHC format admits.
pub const MIN_SALT_TEXT: usize = 4;

/// Longest salt text the PHC format admits.
pub const MAX_SALT_TEXT: usize = 64;

/// Length of a freshly generated salt text: sixteen random bytes in B64.
pub const GENERATED_SALT_TEXT: usize = 22;

/// The opaque error of `Argon2::hash_password_into`.
#[verifier::external_type_specification]
#[verifier::external_body]
pub struct ExArgon2Error(argon2::Error);

/// The opaque error of `SaltString::from_b64`.
#[verifier::external_type_specification]
#[verifier::external_body]
pub struct ExPasswordHashError(argon2::password_hash::Error);

/// The 32-byte Argon2id output for `password` and `salt` under the default
/// parameters.
pub uninterp spec fn argon2id_key(password: Seq<u8>, salt: Seq<u8>) -> Seq<u8>;

/// A character of the PHC salt alphabet `[a-zA-Z0-9/+.-]`.
pub open spec fn is_salt_char(c: char) -> bool {
    ('a' <= c && c <= 'z') || ('A' <= c && c <= 'Z') || ('0' <= c && c <= '9') || c == '/'
        || c == '+' || c == '.' || c == '-'
}

/// A well-formed PHC salt text: 4 to 64 characters of the salt alphabet.
pub open spec fn is_salt_text(s: Seq<char>) -> bool {
    &&& MIN_SALT_TEXT <= s.len() <= MAX_SALT_TEXT
    &&& forall|i: int| 0 <= i < s.len() ==> is_salt_char(#[trigger] s[i])
}

/// Whether Argon2 accepts a password and a salt of these byte lengths.
pub open spec fn argon2_accepts(password_len: nat, salt_len: nat) -> bool {
    password_len <= MAX_INPUT_BYTES && MIN_SALT_BYTES <= salt_len <= MAX_INPUT_BYTES
}

/// Relies on `Argon2::hash_password_into` with `Argon2::default()` and a
/// 32-byte output: it fails only on a password or salt above `u32::MAX`
/// bytes or a salt under eight bytes.
#[verifier::external_body]
fn argon2_hash(password: &[u8], salt: &[u8]) -> (r: Result<[u8; 32], argon2::Error>)
    ensures
        r is Ok <==> argon2_accepts(password@.len(), salt@.len()),
        r matches Ok(k) ==> k@ == argon2id_key(password@, salt@),
{
    let mut key = [0u8; 32];
    Argon2::default().hash_password_into(password, salt, &mut key).map(|_| key)
}

/// Relies on `SaltString::from_b64`: it accepts 4 to 64 bytes of the PHC salt
/// alphabet and nothing else.
#[verifier::external_body]
fn check_salt_text(text: &str) -> (r: Result<(), argon2::password_hash::Error>)
    ensures
        r is Ok <==> is_salt_text(text@),
{
    SaltString::from_b64(text).map(|_| ())
}

/// Relies on `SaltString::generate` with the OS random source: sixteen random
/// bytes in B64, 22 characters of the salt alphabet.
#[verifier::external_body]
pub(crate) fn generate_salt() -> (r: String)
    ensures
        is_salt_text(r@),
        r@.len() == GENERATED_SALT_TEXT,
{
    SaltString::generate(&mut OsRng).as_str().to_string()
}

/// What `derive_key` returns for a password and a salt text.
pub open spec fn derive_key_result(password: Seq<char>, salt: Seq<char>) -> Result<Seq<u8>, VaultError> {
    let pw = encode_utf8(password);
    let s = encode_utf8(salt);
    if argon2_accepts(pw.len(), s.len()) {
        Ok(argon2id_key(pw, s))
    } else {
        Err(VaultError::KeyDerivationError)
    }
}

/// The bytes of a key result, or its error.
pub open spec fn key_outcome(r: Result<[u8; 32], VaultError>) -> Result<Seq<u8>, VaultError> {
    match r {
        Ok(k) => Ok(k@),
        Err(e) => Err(e),
    }
}

/// Derives the vault key from the master password and the salt text. The
/// key is never stored: it is derived anew on every opening, so the result
/// depends on the two inputs alone.
pub fn derive_key(password: &str, salt: &str) -> (r: Result<[u8; 32], VaultError>)
    ensures
        key_outcome(r) == derive_key_result(password@, salt@),
{
    match argon2_hash(password.as_bytes(), salt.as_bytes()) {
        Ok(key) => Ok(key),
        Err(_) => Err(VaultError::KeyDerivationError),
    }
}

/// Checks that `text` is a well-formed salt text.
pub fn validate_salt(text: &str) -> (r: Result<(), VaultError>)
    ensures
        r is Ok <==> is_salt_text(text@),
        r matches Err(e) ==> e == VaultError::KeyDerivationError,
{
    match check_salt_text(text) {
        Ok(()) => Ok(()),
        Err(_) => Err(VaultError::KeyDerivationError),
    }
}

/// Key derivation is a function of the password and the salt: two calls on
/// the same inputs give the same key, or the same error.
pub proof fn lemma_derive_key_deterministic(
    password: Seq<char>,
    salt: Seq<char>,
    first: Result<[u8; 32], VaultError>,
    second: Result<[u8; 32], VaultError>,
)
    requires
        key_outcome(first) == derive_key_result(password, salt),
        key_outcome(second) == derive_key_result(password, salt),
    ensures
        key_outcome(first) == key_outcome(second),
{
}

} // verus!
