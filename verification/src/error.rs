//! Why a vault operation was refused.
use vstd::prelude::*;

verus! {

/// What the key derivation found wrong with its input.
#[derive(Clone, Copy, Debug, PartialEq, Eq, Structural)]
pub enum KdfFault {
    PasswordTooLong,
    SaltTooShort,
    SaltTooLong,
    Other,
}

/// Every reason for which an operation on the vault is refused.
#[derive(Clone, Copy, Debug, PartialEq, Eq, Structural)]
pub enum VaultError {
    /// The key derivation refused its input.
    KdfFailed(KdfFault),
    /// The plaintext is longer than the cipher takes.
    EncryptionFailed,
    /// A stored ciphertext has no separator.
    InvalidFormat,
    /// The part before the separator is not base64.
    BadNonceEncoding,
    /// The part behind the separator is not base64.
    BadCiphertextEncoding,
    /// The nonce is base64, but not of the cipher's nonce length.
    MalformedNonce,
    /// The ciphertext does not authenticate under the key.
    DecryptionFailed,
    /// The decrypted bytes are not text.
    NotUtf8,
    /// The verification ciphertext does not open under the derived key.
    WrongMasterPassword,
    /// The verification ciphertext opens to something else.
    VerificationMismatch,
    /// No salt is stored.
    NoSalt,
    /// No verification ciphertext is stored.
    NoVerifier,
    /// The stored salt is not hexadecimal.
    CorruptSalt,
    /// No index key is stored.
    NoIndexKey,
    /// The stored index key is not hexadecimal.
    CorruptIndexKey,
    /// The stored index key is shorter than a key.
    ShortIndexKey,
}

impl VaultError {
    /// Whether the stored data is damaged beyond what an operation can report and go on from.
    pub open spec fn fatal(self) -> bool {
        self is MalformedNonce || self is ShortIndexKey
    }

    /// Whether the stored data is damaged beyond what an operation can report and go on from.
    pub fn is_fatal(&self) -> (yes: bool)
        ensures
            yes == self.fatal(),
    {
        match self {
            VaultError::MalformedNonce | VaultError::ShortIndexKey => true,
            _ => false,
        }
    }

    /// The sentence shown to the user.
    pub open spec fn text(self) -> Seq<char> {
        match self {
            VaultError::KdfFailed(KdfFault::PasswordTooLong) =>
                "Argon2id KDF failed: password is too long"@,
            VaultError::KdfFailed(KdfFault::SaltTooShort) =>
                "Argon2id KDF failed: salt is too short"@,
            VaultError::KdfFailed(KdfFault::SaltTooLong) =>
                "Argon2id KDF failed: salt is too long"@,
            VaultError::KdfFailed(KdfFault::Other) => "Argon2id KDF failed"@,
            VaultError::EncryptionFailed => "Encryption failed: aead::Error"@,
            VaultError::InvalidFormat => "Invalid ciphertext format"@,
            VaultError::BadNonceEncoding => "Bad nonce encoding"@,
            VaultError::BadCiphertextEncoding => "Bad ciphertext encoding"@,
            VaultError::MalformedNonce => "Malformed nonce"@,
            VaultError::DecryptionFailed =>
                "Decryption failed — wrong master password or corrupted data"@,
            VaultError::NotUtf8 => "Decrypted bytes are not valid UTF-8"@,
            VaultError::WrongMasterPassword => "Wrong master password"@,
            VaultError::VerificationMismatch =>
                "Verification string mismatch — vault may be corrupted"@,
            VaultError::NoSalt => "No salt — vault not initialised"@,
            VaultError::NoVerifier => "No verification blob"@,
            VaultError::CorruptSalt => "Corrupt salt"@,
            VaultError::NoIndexKey => "No index key stored"@,
            VaultError::CorruptIndexKey => "Corrupt index key"@,
            VaultError::ShortIndexKey => "Short index key"@,
        }
    }

    /// The sentence shown to the user.
    pub fn message(&self) -> (message: &'static str)
        ensures
            message@ == self.text(),
    {
        match self {
            VaultError::KdfFailed(KdfFault::PasswordTooLong) =>
                "Argon2id KDF failed: password is too long",
            VaultError::KdfFailed(KdfFault::SaltTooShort) =>
                "Argon2id KDF failed: salt is too short",
            VaultError::KdfFailed(KdfFault::SaltTooLong) =>
                "Argon2id KDF failed: salt is too long",
            VaultError::KdfFailed(KdfFault::Other) => "Argon2id KDF failed",
            VaultError::EncryptionFailed => "Encryption failed: aead::Error",
            VaultError::InvalidFormat => "Invalid ciphertext format",
            VaultError::BadNonceEncoding => "Bad nonce encoding",
            VaultError::BadCiphertextEncoding => "Bad ciphertext encoding",
            VaultError::MalformedNonce => "Malformed nonce",
            VaultError::DecryptionFailed =>
                "Decryption failed — wrong master password or corrupted data",
            VaultError::NotUtf8 => "Decrypted bytes are not valid UTF-8",
            VaultError::WrongMasterPassword => "Wrong master password",
            VaultError::VerificationMismatch =>
                "Verification string mismatch — vault may be corrupted",
            VaultError::NoSalt => "No salt — vault not initialised",
            VaultError::NoVerifier => "No verification blob",
            VaultError::CorruptSalt => "Corrupt salt",
            VaultError::NoIndexKey => "No index key stored",
            VaultError::CorruptIndexKey => "Corrupt index key",
            VaultError::ShortIndexKey => "Short index key",
        }
    }
}

/// Only two reasons leave no way on: a nonce of the wrong length and an index key that is too short.
pub proof fn law_fatal(error: VaultError)
    ensures
        error.fatal() <==> error == VaultError::MalformedNonce || error
            == VaultError::ShortIndexKey,
{
}

} // verus!
