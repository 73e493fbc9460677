//! The outside primitives: AES-256-GCM, Argon2id and the operating system's randomness.
use crate::error::KdfFault;
use aes_gcm::aead::{Aead, AeadCore, KeyInit, OsRng};
use aes_gcm::{Aes256Gcm, Key, Nonce};
use argon2::{Algorithm, Argon2, Params, Version};
use rand::RngCore;
use vstd::prelude::*;

verus! {

/// Length of a salt in bytes.
pub const SALT_LEN: usize = 32;

/// Length of an AES-256 key in bytes.
pub const KEY_LEN: usize = 32;

/// Length of a GCM nonce in bytes.
pub const NONCE_LEN: usize = 12;

/// Length of the authentication tag behind a GCM ciphertext.
pub const TAG_LEN: usize = 16;

/// The longest plaintext that AES-GCM takes, in bytes.
pub const MAX_PLAINTEXT: u64 = 0x10_0000_0000;

/// The AES-256-GCM ciphertext of a plaintext without associated data, tag included.
pub uninterp spec fn gcm_seal(key: Seq<u8>, nonce: Seq<u8>, plaintext: Seq<u8>) -> Seq<u8>;

/// The plaintext of an AES-256-GCM ciphertext, where its tag is the right one.
pub uninterp spec fn gcm_open(key: Seq<u8>, nonce: Seq<u8>, ciphertext: Seq<u8>) -> Option<
    Seq<u8>,
>;

/// The 32-byte Argon2id (version 1.3) tag of a password and a salt.
pub uninterp spec fn argon2id(
    password: Seq<u8>,
    salt: Seq<u8>,
    m_cost: u32,
    t_cost: u32,
    p_cost: u32,
) -> Seq<u8>;

/// The error of `aes_gcm`, which says nothing but that the call failed.
#[verifier::external_type_specification]
#[verifier::external_body]
pub struct ExGcmError(aes_gcm::Error);

/// Calls `aes_gcm::aead::Aead::encrypt` of `Aes256Gcm`. It fails exactly on a plaintext longer
/// than `MAX_PLAINTEXT`. A ciphertext is a tag longer than its plaintext, and opens to it again
/// under the same key and nonce. As the body before the tag is the plaintext combined with a key
/// stream by exclusive or, bodies that begin alike are those of plaintexts that begin alike.
#[verifier::external_body]
pub(crate) fn aes_encrypt(key: &[u8; 32], nonce: &[u8], plaintext: &[u8]) -> (sealed: Result<
    Vec<u8>,
    aes_gcm::Error,
>)
    requires
        nonce@.len() == NONCE_LEN,
        plaintext@.len() + TAG_LEN <= isize::MAX,
    ensures
        sealed is Ok <==> plaintext@.len() <= MAX_PLAINTEXT,
        sealed matches Ok(c) ==> {
            &&& c@ == gcm_seal(key@, nonce@, plaintext@)
            &&& c@.len() == plaintext@.len() + TAG_LEN
            &&& gcm_open(key@, nonce@, c@) == Some(plaintext@)
            &&& forall|other: Seq<u8>, n: int|
                0 <= n <= plaintext@.len() && n <= other.len() <= MAX_PLAINTEXT
                    && #[trigger] gcm_seal(key@, nonce@, other).take(n) == c@.take(n)
                    ==> other.take(n) == plaintext@.take(n)
        },
{
    let cipher = Aes256Gcm::new(Key::<Aes256Gcm>::from_slice(key));
    cipher.encrypt(Nonce::from_slice(nonce), plaintext)
}

/// Calls `aes_gcm::aead::Aead::decrypt` of `Aes256Gcm`. What opens is a tag longer than what it
/// opens to, and is what encrypting that again would give.
#[verifier::external_body]
pub(crate) fn aes_decrypt(key: &[u8; 32], nonce: &[u8], ciphertext: &[u8]) -> (opened: Result<
    Vec<u8>,
    aes_gcm::Error,
>)
    requires
        nonce@.len() == NONCE_LEN,
    ensures
        opened is Ok <==> gcm_open(key@, nonce@, ciphertext@) is Some,
        opened matches Ok(p) ==> {
            &&& gcm_open(key@, nonce@, ciphertext@) == Some(p@)
            &&& ciphertext@.len() == p@.len() + TAG_LEN
            &&& p@.len() <= MAX_PLAINTEXT ==> gcm_seal(key@, nonce@, p@) == ciphertext@
        },
{
    let cipher = Aes256Gcm::new(Key::<Aes256Gcm>::from_slice(key));
    cipher.decrypt(Nonce::from_slice(nonce), ciphertext)
}

/// Calls `aes_gcm::aead::AeadCore::generate_nonce` of `Aes256Gcm` with `OsRng`. Nothing is known
/// of the bytes.
#[verifier::external_body]
pub(crate) fn random_nonce() -> (nonce: [u8; 12]) {
    Aes256Gcm::generate_nonce(&mut OsRng).into()
}

/// Calls `rand::RngCore::fill_bytes` of `OsRng`. Nothing is known of the bytes.
#[verifier::external_body]
pub(crate) fn random_fill(bytes: &mut [u8; 32]) {
    OsRng.fill_bytes(bytes)
}

/// Calls `argon2::Argon2::hash_password_into` for Argon2id, version 1.3, with a 32-byte output.
/// With costs in range it fails exactly on a password of more than `u32::MAX` bytes, on a salt
/// of less than 8 and on one of more than `u32::MAX` bytes, in this order.
#[verifier::external_body]
pub(crate) fn argon2id_hash(
    password: &[u8],
    salt: &[u8],
    m_cost: u32,
    t_cost: u32,
    p_cost: u32,
) -> (tag: Result<[u8; 32], KdfFault>)
    requires
        t_cost >= 1,
        1 <= p_cost <= 0xFF_FFFF,
        8 * p_cost <= m_cost <= 0x10_0000,
    ensures
        match tag {
            Ok(t) => kdf_fault(password@, salt@) is None && t@ == argon2id(
                password@,
                salt@,
                m_cost,
                t_cost,
                p_cost,
            ),
            Err(fault) => kdf_fault(password@, salt@) == Some(fault),
        },
{
    let mut tag = [0u8; 32];
    let params = Params::new(m_cost, t_cost, p_cost, Some(tag.len())).map_err(
        |_| KdfFault::Other,
    )?;
    let argon2 = Argon2::new(Algorithm::Argon2id, Version::V0x13, params);
    match argon2.hash_password_into(password, salt, &mut tag) {
        Ok(()) => Ok(tag),
        Err(argon2::Error::PwdTooLong) => Err(KdfFault::PasswordTooLong),
        Err(argon2::Error::SaltTooShort) => Err(KdfFault::SaltTooShort),
        Err(argon2::Error::SaltTooLong) => Err(KdfFault::SaltTooLong),
        Err(_) => Err(KdfFault::Other),
    }
}

/// What is wrong with the input of a key derivation, if anything.
pub open spec fn kdf_fault(password: Seq<u8>, salt: Seq<u8>) -> Option<KdfFault> {
    if password.len() > u32::MAX {
        Some(KdfFault::PasswordTooLong)
    } else if salt.len() < 8 {
        Some(KdfFault::SaltTooShort)
    } else if salt.len() > u32::MAX {
        Some(KdfFault::SaltTooLong)
    } else {
        None
    }
}

} // verus!
