//! A local, password-protected secret store: vault metadata, key derivation,
//! authenticated encryption of the secret collection, and the
//! read-modify-write steps that keep a vault's nonce and ciphertext in step.

pub mod crypto;
pub mod encoding;
pub mod error;
pub mod kdf;
pub mod models;
pub mod password;
pub mod session;
pub mod storage;
