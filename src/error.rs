use vstd::prelude::*;

verus! {

/// Every way a vault operation can fail. None of them is transient.
#[derive(Debug, Clone, Copy, PartialEq, Eq, Structural)]
pub enum VaultError {
    VaultAlreadyExists,
    VaultNotFound,
    SecretNotFound,
    KeyDerivationError,
    /// Authentication failure: wrong password or tampered data, on purpose
    /// indistinguishable.
    DecryptionError,
    /// The cipher refused the key length or the payload size.
    EncryptionError,
    /// Malformed metadata or collection.
    SerializationError,
    IoError,
    /// No acceptable master password was chosen for a new vault.
    PasswordRejected,
}

} // verus!
