//! The master password on its way to the key derivation.
use secrecy::{ExposeSecret, SecretVec};
use vstd::prelude::*;

verus! {

/// Bytes held by `secrecy::SecretVec<u8>`, which keeps them out of debug output and wipes them
/// when it is dropped.
#[verifier::external_body]
pub struct SecretBytes {
    inner: SecretVec<u8>,
}

/// The bytes that a secret holds.
pub uninterp spec fn secret_bytes(secret: SecretBytes) -> Seq<u8>;

impl View for SecretBytes {
    type V = Seq<u8>;

    open spec fn view(&self) -> Seq<u8> {
        secret_bytes(*self)
    }
}

/// A secret is seen as all the bytes that it holds.
pub proof fn law_secret_view(secret: SecretBytes)
    ensures
        secret@ == secret_bytes(secret),
{
}

/// Calls `secrecy::Secret::new`: the secret holds the bytes that were given.
#[verifier::external_body]
pub(crate) fn seal_secret(bytes: Vec<u8>) -> (secret: SecretBytes)
    ensures
        secret_bytes(secret) == bytes@,
{
    SecretBytes { inner: SecretVec::new(bytes) }
}

/// Calls `secrecy::ExposeSecret::expose_secret`: a view of the bytes that the secret holds.
#[verifier::external_body]
pub(crate) fn expose(secret: &SecretBytes) -> (bytes: &[u8])
    ensures
        bytes@ == secret_bytes(*secret),
{
    secret.inner.expose_secret()
}

} // verus!
