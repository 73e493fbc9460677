//! Master key, encryption of single values and the search index.
use crate::cipher::{
    aes_decrypt, aes_encrypt, argon2id_hash, random_fill, random_nonce, KEY_LEN, MAX_PLAINTEXT,
    NONCE_LEN, SALT_LEN, TAG_LEN,
};
use crate::encoding::{b64_decode, b64_encode, hex_encode};
use crate::error::{KdfFault, VaultError};
use crate::secret::{expose, SecretBytes};
use crate::text::{split_at_colon, to_lowercase, utf8_string};
use crate::wipe::wipe_key;
use crate::{cipher, encoding, text};
use vstd::prelude::*;
use vstd::utf8::*;

verus! {

/// Argon2id memory cost in KiB.
pub const ARGON2_M_COST: u32 = 65536;

/// Argon2id passes over the memory.
pub const ARGON2_T_COST: u32 = 3;

/// Argon2id lanes.
pub const ARGON2_P_COST: u32 = 4;

/// The text whose ciphertext tells whether a master password is the right one.
pub const VERIFY_PLAINTEXT: &'static str = "RUSTPASS_OK";

/// A result with its value taken by its view.
pub open spec fn view_ok<T: View>(r: Result<T, VaultError>) -> Result<T::V, VaultError> {
    match r {
        Ok(value) => Ok(value@),
        Err(e) => Err(e),
    }
}

/// An AES-256 key derived from the master password, modelled as its bytes; wiped when dropped.
pub struct DerivedKey {
    inner: [u8; KEY_LEN],
}

impl View for DerivedKey {
    type V = Seq<u8>;

    closed spec fn view(&self) -> Seq<u8> {
        self.inner@
    }
}

impl DerivedKey {
    pub fn as_bytes(&self) -> (bytes: &[u8; KEY_LEN])
        ensures
            bytes@ == self@,
    {
        &self.inner
    }
}

impl Drop for DerivedKey {
    fn drop(&mut self)
        ensures
            final(self)@ == Seq::new(KEY_LEN as nat, |i: int| 0u8),
        opens_invariants none
        no_unwind
    {
        wipe_key(&mut self.inner);
    }
}

/// A fresh salt from the operating system's randomness.
pub fn generate_salt() -> (salt: [u8; SALT_LEN]) {
    let mut salt: [u8; SALT_LEN] = [0u8; SALT_LEN];
    random_fill(&mut salt);
    salt
}

/// The key that a password and a salt give, or why they give none.
pub open spec fn derived(password: Seq<u8>, salt: Seq<u8>) -> Result<Seq<u8>, VaultError> {
    match cipher::kdf_fault(password, salt) {
        Some(fault) => Err(VaultError::KdfFailed(fault)),
        None => Ok(
            cipher::argon2id(password, salt, ARGON2_M_COST, ARGON2_T_COST, ARGON2_P_COST),
        ),
    }
}

/// Derives the vault's key from the master password.
pub fn derive_key(master_password: &SecretBytes, salt: &[u8]) -> (key: Result<
    DerivedKey,
    VaultError,
>)
    ensures
        view_ok(key) == derived(master_password@, salt@),
        match key {
            Ok(k) => {
                &&& master_password@.len() <= 0xFFFF_FFFF
                &&& 8 <= salt@.len() <= 0xFFFF_FFFF
                &&& k@ == cipher::argon2id(master_password@, salt@, 65536, 3, 4)
            },
            Err(_) => master_password@.len() > 0xFFFF_FFFF || salt@.len() < 8 || salt@.len()
                > 0xFFFF_FFFF,
        },
{
    match argon2id_hash(
        expose(master_password),
        salt,
        ARGON2_M_COST,
        ARGON2_T_COST,
        ARGON2_P_COST,
    ) {
        Ok(inner) => Ok(DerivedKey { inner }),
        Err(fault) => Err(VaultError::KdfFailed(fault)),
    }
}

/// Whether the cipher takes a plaintext of this many bytes. The second bound is the machine's,
/// and the tighter one only where an address has 32 bits.
pub open spec fn cipher_takes(len: nat) -> bool {
    len <= MAX_PLAINTEXT && len + TAG_LEN <= isize::MAX
}

/// Length of the stored form of a plaintext of this many bytes: 16 characters for the nonce, the
/// colon, and the ciphertext with its tag.
pub open spec fn blob_len(len: nat) -> nat {
    17 + encoding::b64_len(len + TAG_LEN as nat)
}

/// Whether a plaintext of this many bytes has a stored form.
pub open spec fn sealable(len: nat) -> bool {
    cipher_takes(len) && blob_len(len) <= isize::MAX
}

/// The stored form of a nonce and a ciphertext: base64, a colon, base64.
pub open spec fn blob_text(nonce: Seq<u8>, ciphertext: Seq<u8>) -> Seq<char> {
    encoding::b64_text(nonce) + seq![':'] + encoding::b64_text(ciphertext)
}

/// The stored form of a plaintext under a key and a nonce.
pub open spec fn sealed_blob(key: Seq<u8>, nonce: Seq<u8>, plaintext: Seq<u8>) -> Seq<char> {
    blob_text(nonce, cipher::gcm_seal(key, nonce, plaintext))
}

/// The nonce and the ciphertext that a stored form holds, or what is wrong with it.
pub open spec fn parsed(blob: Seq<char>) -> Result<(Seq<u8>, Seq<u8>), VaultError> {
    match text::split_colon(blob) {
        None => Err(VaultError::InvalidFormat),
        Some((before, behind)) => match (
            encoding::b64_decoded(before),
            encoding::b64_decoded(behind),
        ) {
            (None, _) => Err(VaultError::BadNonceEncoding),
            (_, None) => Err(VaultError::BadCiphertextEncoding),
            (Some(nonce), Some(ciphertext)) => if nonce.len() == NONCE_LEN {
                Ok((nonce, ciphertext))
            } else {
                Err(VaultError::MalformedNonce)
            },
        },
    }
}

/// Whether a stored form does without a nonce of the wrong length.
pub open spec fn nonce_ok(blob: Seq<char>) -> bool {
    parsed(blob) != Err::<(Seq<u8>, Seq<u8>), VaultError>(VaultError::MalformedNonce)
}

/// What a stored form opens to under a key.
pub open spec fn opened(key: Seq<u8>, blob: Seq<char>) -> Result<Seq<u8>, VaultError> {
    match parsed(blob) {
        Err(e) => Err(e),
        Ok((nonce, ciphertext)) => match cipher::gcm_open(key, nonce, ciphertext) {
            Some(plaintext) => Ok(plaintext),
            None => Err(VaultError::DecryptionFailed),
        },
    }
}

/// What a stored text opens to under a key.
pub open spec fn opened_text(key: Seq<u8>, blob: Seq<char>) -> Result<Seq<char>, VaultError> {
    match opened(key, blob) {
        Err(e) => Err(e),
        Ok(bytes) => if valid_utf8(bytes) {
            Ok(decode_utf8(bytes))
        } else {
            Err(VaultError::NotUtf8)
        },
    }
}

/// Whether a stored form is that of a text under a key and some nonce, and opens to it.
pub open spec fn seals(key: Seq<u8>, blob: Seq<char>, text: Seq<char>) -> bool {
    &&& opened_text(key, blob) == Ok::<Seq<char>, VaultError>(text)
    &&& exists|nonce: Seq<u8>| #[trigger] is_blob_of(blob, key, nonce, encode_utf8(text))
}

/// Whether a stored form is that of a plaintext under a key and a nonce; the ciphertext in it is a
/// tag longer than the plaintext.
pub open spec fn is_blob_of(
    blob: Seq<char>,
    key: Seq<u8>,
    nonce: Seq<u8>,
    plaintext: Seq<u8>,
) -> bool {
    &&& nonce.len() == NONCE_LEN
    &&& blob == sealed_blob(key, nonce, plaintext)
    &&& cipher::gcm_seal(key, nonce, plaintext).len() == plaintext.len() + TAG_LEN
}

/// Whether a plaintext of `len` bytes has a stored form.
fn is_sealable(len: usize) -> (yes: bool)
    ensures
        yes == sealable(len as nat),
{
    len as u64 <= MAX_PLAINTEXT && (len as u64 + 18) / 3 * 4 + 17 <= isize::MAX as u64
}

/// Encrypts under a given nonce.
pub fn encrypt_with_nonce(
    plaintext: &[u8],
    derived_key: &DerivedKey,
    nonce: &[u8; NONCE_LEN],
) -> (blob: Result<String, VaultError>)
    ensures
        blob is Ok <==> sealable(plaintext@.len()),
        blob matches Err(e) ==> e == VaultError::EncryptionFailed,
        blob matches Ok(b) ==> is_blob_of(b@, derived_key@, nonce@, plaintext@),
        blob matches Ok(b) ==> b@.len() == blob_len(plaintext@.len()),
        blob matches Ok(b) ==> opened(derived_key@, b@) == Ok::<Seq<u8>, VaultError>(plaintext@),
{
    if !is_sealable(plaintext.len()) {
        return Err(VaultError::EncryptionFailed);
    }
    match aes_encrypt(derived_key.as_bytes(), nonce.as_slice(), plaintext) {
        Ok(ciphertext) => {
            let mut blob: String = b64_encode(nonce.as_slice());
            blob.append(":");
            blob.append(b64_encode(ciphertext.as_slice()).as_str());
            proof {
                reveal_strlit(":");
                assert(":"@ =~= seq![':']);
                lemma_blob_parses(nonce@, ciphertext@);
                encoding::lemma_b64_len(nonce@);
                encoding::lemma_b64_len(ciphertext@);
            }
            Ok(blob)
        },
        Err(_) => Err(VaultError::EncryptionFailed),
    }
}

/// Encrypts under a fresh nonce.
pub fn encrypt(plaintext: &[u8], derived_key: &DerivedKey) -> (blob: Result<String, VaultError>)
    ensures
        blob is Ok <==> sealable(plaintext@.len()),
        blob matches Err(e) ==> e == VaultError::EncryptionFailed,
        blob matches Ok(b) ==> exists|nonce: Seq<u8>| #[trigger]
            is_blob_of(b@, derived_key@, nonce, plaintext@),
        blob matches Ok(b) ==> b@.len() == blob_len(plaintext@.len()),
        blob matches Ok(b) ==> opened(derived_key@, b@) == Ok::<Seq<u8>, VaultError>(plaintext@),
{
    let nonce: [u8; NONCE_LEN] = random_nonce();
    encrypt_with_nonce(plaintext, derived_key, &nonce)
}

/// Takes a stored form apart.
pub fn parse_blob(blob: &str) -> (parts: Result<(Vec<u8>, Vec<u8>), VaultError>)
    ensures
        match parts {
            Ok((nonce, ciphertext)) => parsed(blob@) == Ok::<_, VaultError>(
                (nonce@, ciphertext@),
            ),
            Err(e) => parsed(blob@) == Err::<(Seq<u8>, Seq<u8>), _>(e),
        },
{
    match split_at_colon(blob) {
        None => Err(VaultError::InvalidFormat),
        Some((nonce_b64, ct_b64)) => {
            proof {
                text::lemma_split_colon(nonce_b64@, ct_b64@);
            }
            match b64_decode(nonce_b64) {
                None => Err(VaultError::BadNonceEncoding),
                Some(nonce) => {
                    proof {
                        encoding::lemma_b64_round_trip(nonce@);
                    }
                    match b64_decode(ct_b64) {
                        None => Err(VaultError::BadCiphertextEncoding),
                        Some(ciphertext) => {
                            proof {
                                encoding::lemma_b64_round_trip(ciphertext@);
                            }
                            if nonce.len() == NONCE_LEN {
                                Ok((nonce, ciphertext))
                            } else {
                                Err(VaultError::MalformedNonce)
                            }
                        },
                    }
                },
            }
        },
    }
}

/// Decrypts a stored form, whatever it holds.
pub fn open_blob(blob: &str, derived_key: &DerivedKey) -> (plaintext: Result<Vec<u8>, VaultError>)
    ensures
        view_ok(plaintext) == opened(derived_key@, blob@),
        plaintext matches Ok(p) ==> sealable(p@.len()) ==> exists|nonce: Seq<u8>| #[trigger]
            is_blob_of(blob@, derived_key@, nonce, p@),
{
    match parse_blob(blob) {
        Err(e) => Err(e),
        Ok((nonce, ciphertext)) => match aes_decrypt(
            derived_key.as_bytes(),
            nonce.as_slice(),
            ciphertext.as_slice(),
        ) {
            Ok(plaintext) => {
                proof {
                    lemma_parsed_blob(blob@);
                    if sealable(plaintext@.len()) {
                        assert(is_blob_of(blob@, derived_key@, nonce@, plaintext@));
                    }
                }
                Ok(plaintext)
            },
            Err(_) => Err(VaultError::DecryptionFailed),
        },
    }
}

/// Decrypts what [`encrypt`] stored.
pub fn decrypt(blob: &str, derived_key: &DerivedKey) -> (plaintext: Result<Vec<u8>, VaultError>)
    requires
        nonce_ok(blob@),
    ensures
        view_ok(plaintext) == opened(derived_key@, blob@),
        plaintext matches Ok(p) ==> sealable(p@.len()) ==> exists|nonce: Seq<u8>| #[trigger]
            is_blob_of(blob@, derived_key@, nonce, p@),
{
    open_blob(blob, derived_key)
}

/// Encrypts a text under a fresh nonce.
pub fn encrypt_str(plaintext: &str, key: &DerivedKey) -> (blob: Result<String, VaultError>)
    ensures
        blob is Ok <==> sealable(encode_utf8(plaintext@).len()),
        blob matches Err(e) ==> e == VaultError::EncryptionFailed,
        blob matches Ok(b) ==> seals(key@, b@, plaintext@),
        blob matches Ok(b) ==> b@.len() == blob_len(encode_utf8(plaintext@).len()),
{
    proof {
        encode_utf8_valid_utf8(plaintext@);
        encode_utf8_decode_utf8(plaintext@);
    }
    encrypt(plaintext.as_bytes(), key)
}

/// Decrypts a stored text, whatever it holds.
pub fn open_text(blob: &str, key: &DerivedKey) -> (plaintext: Result<String, VaultError>)
    ensures
        view_ok(plaintext) == opened_text(key@, blob@),
        plaintext matches Ok(p) ==> sealable(encode_utf8(p@).len()) ==> seals(key@, blob@, p@),
{
    broadcast use decode_utf8_encode_utf8;

    match open_blob(blob, key) {
        Err(e) => Err(e),
        Ok(bytes) => match utf8_string(bytes) {
            Some(text) => Ok(text),
            None => Err(VaultError::NotUtf8),
        },
    }
}

/// Decrypts what [`encrypt_str`] stored.
pub fn decrypt_str(blob: &str, key: &DerivedKey) -> (plaintext: Result<String, VaultError>)
    requires
        nonce_ok(blob@),
    ensures
        view_ok(plaintext) == opened_text(key@, blob@),
        plaintext matches Ok(p) ==> sealable(encode_utf8(p@).len()) ==> seals(key@, blob@, p@),
{
    broadcast use decode_utf8_encode_utf8;

    match decrypt(blob, key) {
        Err(e) => Err(e),
        Ok(bytes) => match utf8_string(bytes) {
            Some(text) => Ok(text),
            None => Err(VaultError::NotUtf8),
        },
    }
}

/// Whether a stored form does without a nonce of the wrong length.
pub fn has_nonce_ok(blob: &str) -> (ok: bool)
    ensures
        ok == nonce_ok(blob@),
{
    match parse_blob(blob) {
        Err(VaultError::MalformedNonce) => false,
        _ => true,
    }
}

/// Why the text behind the verification ciphertext is not accepted, if it is not.
pub open spec fn verification_fault(verification: Result<Seq<char>, VaultError>) -> Option<
    VaultError,
> {
    match verification {
        Err(_) => Some(VaultError::WrongMasterPassword),
        Ok(text) => if text == VERIFY_PLAINTEXT@ {
            None
        } else {
            Some(VaultError::VerificationMismatch)
        },
    }
}

/// Decides by what the verification ciphertext opened to.
pub fn check_verification(verification: Result<String, VaultError>) -> (checked: Result<
    (),
    VaultError,
>)
    ensures
        match checked {
            Ok(()) => verification_fault(view_ok(verification)) is None,
            Err(e) => verification_fault(view_ok(verification)) == Some(e),
        },
        checked is Ok <==> (verification matches Ok(text) && text@ == "RUSTPASS_OK"@),
        verification is Err ==> checked == Err::<(), VaultError>(VaultError::WrongMasterPassword),
{
    match verification {
        Err(_) => Err(VaultError::WrongMasterPassword),
        Ok(text) => if text == VERIFY_PLAINTEXT.to_owned() {
            Ok(())
        } else {
            Err(VaultError::VerificationMismatch)
        },
    }
}

/// The key that a master password unlocks with, or why it does not unlock.
pub open spec fn verified(password: Seq<u8>, salt: Seq<u8>, blob: Seq<char>) -> Result<
    Seq<u8>,
    VaultError,
> {
    match derived(password, salt) {
        Err(e) => Err(e),
        Ok(key) => match verification_fault(opened_text(key, blob)) {
            Some(e) => Err(e),
            None => Ok(key),
        },
    }
}

/// Derives the key and checks it against the verification ciphertext.
pub fn verify_master_password(
    master_password: &SecretBytes,
    salt: &[u8],
    verification_blob: &str,
) -> (key: Result<DerivedKey, VaultError>)
    requires
        cipher::kdf_fault(master_password@, salt@) is None ==> nonce_ok(verification_blob@),
    ensures
        view_ok(key) == verified(master_password@, salt@, verification_blob@),
        key matches Ok(k) ==> k@ == cipher::argon2id(master_password@, salt@, 65536, 3, 4)
            && opened_text(k@, verification_blob@) == Ok::<Seq<char>, VaultError>("RUSTPASS_OK"@),
{
    match derive_key(master_password, salt) {
        Err(e) => Err(e),
        Ok(key) => match check_verification(decrypt_str(verification_blob, &key)) {
            Err(e) => Err(e),
            Ok(()) => Ok(key),
        },
    }
}

/// The nonce of the search index: twelve zero bytes.
pub open spec fn index_nonce() -> Seq<u8> {
    Seq::new(NONCE_LEN as nat, |i: int| 0u8)
}

/// The label under which the index key is derived.
pub const INDEX_LABEL: &'static str = "rustpass-site-index-key-v1";

/// The index key of a vault: the first 32 bytes of the label's ciphertext under the vault's key.
pub open spec fn index_key(vault_key: Seq<u8>) -> Seq<u8> {
    cipher::gcm_seal(vault_key, index_nonce(), encode_utf8(INDEX_LABEL@)).take(KEY_LEN as int)
}

/// The first 32 bytes.
pub fn first_key_bytes(bytes: &[u8]) -> (key: [u8; KEY_LEN])
    requires
        bytes@.len() >= KEY_LEN,
    ensures
        key@ == bytes@.take(KEY_LEN as int),
{
    let mut key: [u8; KEY_LEN] = [0u8; KEY_LEN];
    let mut i: usize = 0;
    while i < KEY_LEN
        invariant
            i <= KEY_LEN <= bytes@.len(),
            key@.take(i as int) == bytes@.take(i as int),
        decreases KEY_LEN - i,
    {
        key[i] = bytes[i];
        i += 1;
        assert(key@.take(i as int) =~= bytes@.take(i as int)) by {
            assert forall|j: int| 0 <= j < i - 1 implies key@[j] == bytes@[j] by {
                assert(key@.take(i - 1)[j] == bytes@.take(i - 1)[j]);
            }
        }
    }
    assert(key@.take(KEY_LEN as int) =~= key@);
    key
}

/// Derives the index key from the vault's key; the same key always gives the same index key.
pub fn derive_index_key(vault_key: &DerivedKey) -> (key: [u8; 32])
    ensures
        key@ == index_key(vault_key@),
{
    let nonce: [u8; NONCE_LEN] = [0u8; NONCE_LEN];
    proof {
        lemma_index_label();
        assert(nonce@ =~= index_nonce());
    }
    match aes_encrypt(vault_key.as_bytes(), nonce.as_slice(), INDEX_LABEL.as_bytes()) {
        Ok(ciphertext) => first_key_bytes(ciphertext.as_slice()),
        Err(_) => [0u8; 32],
    }
}

/// The token of a ciphertext: its first 32 bytes in hexadecimal, with zero bytes in place of those
/// that a shorter one lacks.
pub open spec fn token_text(ciphertext: Seq<u8>) -> Seq<char> {
    encoding::hex_text(token_bytes(ciphertext))
}

/// The 32 bytes behind the token of a ciphertext.
pub open spec fn token_bytes(ciphertext: Seq<u8>) -> Seq<u8> {
    Seq::new(
        32,
        |i: int|
            if i < ciphertext.len() {
                ciphertext[i]
            } else {
                0u8
            },
    )
}

/// The token under which a site is indexed. A site beyond the cipher's reach has the token of 32
/// zero bytes.
pub open spec fn site_token(index_key: Seq<u8>, site: Seq<char>) -> Seq<char> {
    let input = encode_utf8(text::lowercase(site));
    token_text(
        if cipher_takes(input.len()) {
            cipher::gcm_seal(index_key, index_nonce(), input)
        } else {
            Seq::new(32, |i: int| 0u8)
        },
    )
}

/// Whether texts whose ciphertexts begin like that of a site begin like the site.
pub open spec fn token_tells_apart(index_key: Seq<u8>, site: Seq<char>) -> bool {
    let input = encode_utf8(text::lowercase(site));
    let sealed = cipher::gcm_seal(index_key, index_nonce(), input);
    &&& cipher_takes(input.len())
    &&& sealed.len() == input.len() + TAG_LEN
    &&& forall|other: Seq<u8>, n: int|
        0 <= n <= input.len() && n <= other.len() <= MAX_PLAINTEXT && #[trigger] cipher::gcm_seal(
            index_key,
            index_nonce(),
            other,
        ).take(n) == sealed.take(n) ==> other.take(n) == input.take(n)
}

/// The token of a ciphertext.
pub fn ciphertext_token(ciphertext: &[u8]) -> (token: String)
    ensures
        token@ == token_text(ciphertext@),
        token@.len() == 64,
{
    let mut bytes: [u8; 32] = [0u8; 32];
    let mut i: usize = 0;
    while i < 32 && i < ciphertext.len()
        invariant
            i <= 32,
            i <= ciphertext@.len(),
            forall|j: int| 0 <= j < i ==> bytes@[j] == ciphertext@[j],
            forall|j: int| i <= j < 32 ==> bytes@[j] == 0,
        decreases 32 - i,
    {
        bytes[i] = ciphertext[i];
        i += 1;
    }
    assert(bytes@ =~= token_bytes(ciphertext@));
    hex_encode(bytes.as_slice())
}

/// The token under which a site is indexed and searched for.
pub fn site_hmac(index_key: &[u8; 32], site: &str) -> (token: String)
    ensures
        token@ == site_token(index_key@, site@),
        token@.len() == 64,
        cipher_takes(encode_utf8(text::lowercase(site@)).len()) ==> token_tells_apart(
            index_key@,
            site@,
        ),
{
    let nonce: [u8; NONCE_LEN] = [0u8; NONCE_LEN];
    assert(nonce@ =~= index_nonce());
    let input: String = to_lowercase(site);
    let bytes: &[u8] = input.as_str().as_bytes();
    let zeros: [u8; 32] = [0u8; 32];
    assert(zeros@ =~= Seq::new(32, |i: int| 0u8));
    if bytes.len() as u64 > MAX_PLAINTEXT || bytes.len() > isize::MAX as usize - TAG_LEN {
        return ciphertext_token(zeros.as_slice());
    }
    match aes_encrypt(index_key, nonce.as_slice(), bytes) {
        Ok(ciphertext) => ciphertext_token(ciphertext.as_slice()),
        Err(_) => ciphertext_token(zeros.as_slice()),
    }
}

/// The label has 26 bytes.
proof fn lemma_index_label()
    ensures
        encode_utf8(INDEX_LABEL@).len() == 26,
{
    reveal_strlit("rustpass-site-index-key-v1");
    is_ascii_chars_encode_utf8(INDEX_LABEL@);
}

/// What parses is the stored form of what it parses to.
pub proof fn lemma_parsed_blob(blob: Seq<char>)
    ensures
        parsed(blob) matches Ok((nonce, ciphertext)) ==> nonce.len() == NONCE_LEN && blob
            == blob_text(nonce, ciphertext),
{
    if let Ok((nonce, ciphertext)) = parsed(blob) {
        blob.index_of_first_ensures(':');
        let i = blob.index_of_first(':')->0;
        assert(blob =~= blob.take(i) + seq![':'] + blob.skip(i + 1));
    }
}

/// A stored form opens as a text exactly where it opens to bytes that are the UTF-8 form of that
/// text; where it does not open at all, the reason is the same.
pub proof fn law_text_is_decrypted_bytes(key: Seq<u8>, blob: Seq<char>)
    ensures
        forall|text: Seq<char>|
            opened_text(key, blob) == Ok::<Seq<char>, VaultError>(text) <==> opened(key, blob)
                == Ok::<Seq<u8>, VaultError>(#[trigger] encode_utf8(text)),
        match opened(key, blob) {
            Err(e) => opened_text(key, blob) == Err::<Seq<char>, VaultError>(e),
            Ok(bytes) => !valid_utf8(bytes) ==> opened_text(key, blob) == Err::<
                Seq<char>,
                VaultError,
            >(VaultError::NotUtf8),
        },
{
    if let Ok(bytes) = opened(key, blob) {
        if valid_utf8(bytes) {
            decode_utf8_encode_utf8(bytes);
        }
    }
    assert forall|text: Seq<char>| opened_text(key, blob) == Ok::<Seq<char>, VaultError>(
        text,
    ) <==> opened(key, blob) == Ok::<Seq<u8>, VaultError>(#[trigger] encode_utf8(text)) by {
        encode_utf8_valid_utf8(text);
        encode_utf8_decode_utf8(text);
    }
}

/// What was stored of a text decrypts to that text, and its bytes are the text's UTF-8 form.
pub proof fn law_stored_text_reads_back(key: Seq<u8>, blob: Seq<char>, text: Seq<char>)
    requires
        seals(key, blob, text),
    ensures
        nonce_ok(blob),
        opened_text(key, blob) == Ok::<Seq<char>, VaultError>(text),
        opened(key, blob) == Ok::<Seq<u8>, VaultError>(encode_utf8(text)),
{
    law_text_is_decrypted_bytes(key, blob);
}

/// A result seen by its view keeps its case: the value's view, or the error itself.
pub proof fn law_view_ok<T: View>(value: T, error: VaultError)
    ensures
        view_ok(Ok::<T, VaultError>(value)) == Ok::<T::V, VaultError>(value@),
        view_ok(Err::<T, VaultError>(error)) == Err::<T::V, VaultError>(error),
{
}

/// The key is the Argon2id tag of the whole password and the whole salt, with 64 MiB, 3 passes and
/// 4 lanes. None is derived exactly where the password has more than 2^32 - 1 bytes, or the salt
/// fewer than 8 or more than 2^32 - 1.
pub proof fn law_key_is_argon2id(password: Seq<u8>, salt: Seq<u8>)
    ensures
        password.len() <= 0xFFFF_FFFF && 8 <= salt.len() <= 0xFFFF_FFFF ==> derived(password, salt)
            == Ok::<Seq<u8>, VaultError>(cipher::argon2id(password, salt, 65536, 3, 4)),
        password.len() > 0xFFFF_FFFF ==> derived(password, salt) == Err::<Seq<u8>, VaultError>(
            VaultError::KdfFailed(KdfFault::PasswordTooLong),
        ),
        password.len() <= 0xFFFF_FFFF && salt.len() < 8 ==> derived(password, salt) == Err::<
            Seq<u8>,
            VaultError,
        >(VaultError::KdfFailed(KdfFault::SaltTooShort)),
        password.len() <= 0xFFFF_FFFF && salt.len() > 0xFFFF_FFFF ==> derived(password, salt)
            == Err::<Seq<u8>, VaultError>(VaultError::KdfFailed(KdfFault::SaltTooLong)),
{
}

/// A plaintext has a stored form where it has at most 2^36 bytes and the form fits the machine.
pub proof fn law_what_can_be_stored(len: nat)
    ensures
        sealable(len) <==> len <= 0x10_0000_0000 && 17 + (len + 18) / 3 * 4 <= isize::MAX,
        cipher_takes(len) <==> len <= 0x10_0000_0000 && len + 16 <= isize::MAX,
        blob_len(len) == 17 + (len + 18) / 3 * 4,
{
}

/// What is stored of a plaintext is the base64 of the 12-byte nonce, a colon, and the base64 of the
/// AES-256-GCM ciphertext of the whole plaintext.
pub proof fn law_stored_form(blob: Seq<char>, key: Seq<u8>, nonce: Seq<u8>, plaintext: Seq<u8>)
    ensures
        sealed_blob(key, nonce, plaintext) == encoding::b64_text(nonce) + seq![':']
            + encoding::b64_text(cipher::gcm_seal(key, nonce, plaintext)),
        is_blob_of(blob, key, nonce, plaintext) ==> {
            &&& nonce.len() == 12
            &&& blob == encoding::b64_text(nonce) + seq![':'] + encoding::b64_text(
                cipher::gcm_seal(key, nonce, plaintext),
            )
            &&& cipher::gcm_seal(key, nonce, plaintext).len() == plaintext.len() + 16
        },
{
}

/// A stored text was sealed under some nonce from all of its UTF-8 bytes.
pub proof fn law_sealed_text_form(key: Seq<u8>, blob: Seq<char>, text: Seq<char>)
    requires
        seals(key, blob, text),
    ensures
        exists|nonce: Seq<u8>|
            nonce.len() == 12 && blob == #[trigger] encoding::b64_text(nonce) + seq![':']
                + encoding::b64_text(cipher::gcm_seal(key, nonce, encode_utf8(text))),
{
    let nonce = choose|nonce: Seq<u8>| #[trigger] is_blob_of(blob, key, nonce, encode_utf8(text));
    law_stored_form(blob, key, nonce, encode_utf8(text));
    assert(blob == encoding::b64_text(nonce) + seq![':'] + encoding::b64_text(
        cipher::gcm_seal(key, nonce, encode_utf8(text)),
    ));
}

/// A stored form made of a 12-byte nonce and a ciphertext opens to what the cipher opens that
/// ciphertext to, and to nothing where the cipher refuses it.
pub proof fn law_blob_opens_as_its_ciphertext(key: Seq<u8>, nonce: Seq<u8>, ciphertext: Seq<u8>)
    requires
        nonce.len() == 12,
    ensures
        opened(
            key,
            encoding::b64_text(nonce) + seq![':'] + encoding::b64_text(ciphertext),
        ) == (match cipher::gcm_open(key, nonce, ciphertext) {
            Some(plaintext) => Ok::<Seq<u8>, VaultError>(plaintext),
            None => Err::<Seq<u8>, VaultError>(VaultError::DecryptionFailed),
        }),
{
    lemma_blob_parses(nonce, ciphertext);
}

/// What opens is the stored form of a 12-byte nonce and a ciphertext that the cipher opens to the
/// same bytes.
pub proof fn law_only_blobs_open(key: Seq<u8>, blob: Seq<char>, plaintext: Seq<u8>)
    requires
        opened(key, blob) == Ok::<Seq<u8>, VaultError>(plaintext),
    ensures
        exists|nonce: Seq<u8>, ciphertext: Seq<u8>|
            nonce.len() == 12 && blob == encoding::b64_text(nonce) + seq![':']
                + encoding::b64_text(ciphertext) && #[trigger] cipher::gcm_open(
                key,
                nonce,
                ciphertext,
            ) == Some(plaintext),
{
    lemma_parsed_blob(blob);
    let (nonce, ciphertext) = parsed(blob)->Ok_0;
    assert(cipher::gcm_open(key, nonce, ciphertext) == Some(plaintext));
}

/// A text without a colon is no stored form. Of one with a colon, the part before the first must be
/// base64, then the part behind it, then the part before it must have 12 bytes.
pub proof fn law_malformed_blobs(key: Seq<u8>, before: Seq<char>, behind: Seq<char>)
    requires
        !before.contains(':'),
    ensures
        opened(key, before) == Err::<Seq<u8>, VaultError>(VaultError::InvalidFormat),
        nonce_ok(before),
        ({
            let blob = before + seq![':'] + behind;
            let no_nonce = forall|n: Seq<u8>| #[trigger] encoding::b64_text(n) != before;
            let no_text = forall|c: Seq<u8>| #[trigger] encoding::b64_text(c) != behind;
            &&& no_nonce ==> opened(key, blob) == Err::<Seq<u8>, VaultError>(
                VaultError::BadNonceEncoding,
            )
            &&& !no_nonce && no_text ==> opened(key, blob) == Err::<Seq<u8>, VaultError>(
                VaultError::BadCiphertextEncoding,
            )
            &&& no_nonce || no_text ==> nonce_ok(blob)
            &&& forall|n: Seq<u8>|
                #[trigger] encoding::b64_text(n) == before && n.len() != 12 && !no_text ==> opened(
                    key,
                    blob,
                ) == Err::<Seq<u8>, VaultError>(VaultError::MalformedNonce) && !nonce_ok(blob)
            &&& forall|n: Seq<u8>|
                #[trigger] encoding::b64_text(n) == before && n.len() == 12 ==> nonce_ok(blob)
        }),
{
    text::lemma_split_colon(before, behind);
    assert forall|n: Seq<u8>| #[trigger] encoding::b64_text(n) == before implies
        encoding::b64_decoded(before) == Some(n) by {
        encoding::lemma_b64_round_trip(n);
    }
    assert forall|c: Seq<u8>| #[trigger] encoding::b64_text(c) == behind implies
        encoding::b64_decoded(behind) == Some(c) by {
        encoding::lemma_b64_round_trip(c);
    }
}

/// A master password is verified exactly where the Argon2id tag of it opens the verification
/// ciphertext to `RUSTPASS_OK`, and the key is that tag. Where the tag opens it to nothing the
/// password is wrong; where it opens it to anything else the vault is damaged.
pub proof fn law_verification(password: Seq<u8>, salt: Seq<u8>, blob: Seq<char>)
    requires
        password.len() <= 0xFFFF_FFFF,
        8 <= salt.len() <= 0xFFFF_FFFF,
    ensures
        ({
            let key = cipher::argon2id(password, salt, 65536, 3, 4);
            match opened_text(key, blob) {
                Err(_) => verified(password, salt, blob) == Err::<Seq<u8>, VaultError>(
                    VaultError::WrongMasterPassword,
                ),
                Ok(text) => if text == "RUSTPASS_OK"@ {
                    verified(password, salt, blob) == Ok::<Seq<u8>, VaultError>(key)
                } else {
                    verified(password, salt, blob) == Err::<Seq<u8>, VaultError>(
                        VaultError::VerificationMismatch,
                    )
                },
            }
        }),
{
}

/// The index key is the first 32 bytes of the ciphertext of the label under the vault's key and a
/// nonce of twelve zero bytes.
pub proof fn law_index_key_form(vault_key: Seq<u8>, nonce: Seq<u8>)
    requires
        nonce.len() == 12,
        forall|i: int| 0 <= i < 12 ==> nonce[i] == 0,
    ensures
        index_key(vault_key) == cipher::gcm_seal(
            vault_key,
            nonce,
            encode_utf8("rustpass-site-index-key-v1"@),
        ).take(32),
{
    assert(nonce =~= index_nonce());
}

/// The token of a site is the hexadecimal form of 32 bytes: those with which the ciphertext of the
/// whole lower-case name begins, under the index key and a nonce of twelve zero bytes, and zeros
/// where it ends before.
pub proof fn law_token_form(index_key: Seq<u8>, site: Seq<char>, nonce: Seq<u8>, token: Seq<u8>)
    requires
        nonce.len() == 12,
        forall|i: int| 0 <= i < 12 ==> nonce[i] == 0,
        token.len() == 32,
    ensures
        ({
            let input = encode_utf8(text::lowercase(site));
            let sealed = cipher::gcm_seal(index_key, nonce, input);
            let fits = input.len() <= 0x10_0000_0000 && input.len() + 16 <= isize::MAX;
            &&& (fits && forall|i: int|
                0 <= i < 32 ==> #[trigger] token[i] == (if i < sealed.len() {
                    sealed[i]
                } else {
                    0u8
                })) ==> site_token(index_key, site) == encoding::hex_text(token)
            &&& (!fits && forall|i: int| 0 <= i < 32 ==> #[trigger] token[i] == 0)
                ==> site_token(index_key, site) == encoding::hex_text(token)
        }),
{
    assert(nonce =~= index_nonce());
    let input = encode_utf8(text::lowercase(site));
    let sealed = cipher::gcm_seal(index_key, nonce, input);
    let zeros = Seq::new(32, |i: int| 0u8);
    if cipher_takes(input.len()) && (forall|i: int|
        0 <= i < 32 ==> #[trigger] token[i] == (if i < sealed.len() {
            sealed[i]
        } else {
            0u8
        })) {
        assert(token =~= token_bytes(sealed));
    }
    if !cipher_takes(input.len()) && (forall|i: int| 0 <= i < 32 ==> #[trigger] token[i] == 0) {
        assert(token =~= token_bytes(zeros));
    }
}

/// Tokens do not tell the cases of a site name apart: names with the same lower-case form share
/// their token.
pub proof fn law_token_ignores_case(index_key: Seq<u8>, a: Seq<char>, b: Seq<char>)
    requires
        text::lowercase(a) == text::lowercase(b),
    ensures
        site_token(index_key, a) == site_token(index_key, b),
{
}

/// A token is 32 bytes in hexadecimal, whatever the site.
pub proof fn law_token_is_hex(index_key: Seq<u8>, site: Seq<char>)
    ensures
        site_token(index_key, site).len() == 64,
        encoding::hex_decoded(site_token(index_key, site)) is Some,
{
    let input = encode_utf8(text::lowercase(site));
    let sealed = if cipher_takes(input.len()) {
        cipher::gcm_seal(index_key, index_nonce(), input)
    } else {
        Seq::new(32, |i: int| 0u8)
    };
    encoding::lemma_hex_round_trip(token_bytes(sealed));
}

/// Tokens tell names apart: two lower-case names share their token only if their first 32 bytes
/// agree or, where one has fewer, the other begins with it. So names with the same number of bytes
/// and at most 32 of them share their token only if they are the same.
pub proof fn law_token_tells_names_apart(index_key: Seq<u8>, a: Seq<char>, b: Seq<char>)
    requires
        token_tells_apart(index_key, a),
        token_tells_apart(index_key, b),
        site_token(index_key, a) == site_token(index_key, b),
    ensures
        ({
            let bytes_a = encode_utf8(text::lowercase(a));
            let bytes_b = encode_utf8(text::lowercase(b));
            &&& forall|i: int|
                0 <= i < 32 && i < bytes_a.len() && i < bytes_b.len() ==> #[trigger] bytes_a[i]
                    == bytes_b[i]
            &&& bytes_a.len() == bytes_b.len() <= 32 ==> text::lowercase(a) == text::lowercase(b)
        }),
{
    let input_a = encode_utf8(text::lowercase(a));
    let input_b = encode_utf8(text::lowercase(b));
    let sealed_a = cipher::gcm_seal(index_key, index_nonce(), input_a);
    let sealed_b = cipher::gcm_seal(index_key, index_nonce(), input_b);
    encoding::lemma_hex_round_trip(token_bytes(sealed_a));
    encoding::lemma_hex_round_trip(token_bytes(sealed_b));
    let shorter = if input_a.len() < input_b.len() {
        input_a.len() as int
    } else {
        input_b.len() as int
    };
    let n = if shorter < 32 {
        shorter
    } else {
        32
    };
    assert(token_bytes(sealed_a) == token_bytes(sealed_b));
    assert forall|i: int| 0 <= i < n implies sealed_a[i] == sealed_b[i] by {
        assert(token_bytes(sealed_a)[i] == token_bytes(sealed_b)[i]);
    }
    assert(sealed_a.take(n) =~= sealed_b.take(n));
    assert(input_a.take(n) == input_b.take(n));
    assert forall|i: int| 0 <= i < 32 && i < input_a.len() && i < input_b.len() implies input_a[i]
        == input_b[i] by {
        assert(input_a.take(n)[i] == input_b.take(n)[i]);
    }
    if input_a.len() == input_b.len() <= 32 {
        assert(input_a =~= input_b);
        encode_utf8_decode_utf8(text::lowercase(a));
        encode_utf8_decode_utf8(text::lowercase(b));
    }
}

/// The stored form of a nonce and a ciphertext parses to just these.
pub proof fn lemma_blob_parses(nonce: Seq<u8>, ciphertext: Seq<u8>)
    ensures
        nonce.len() == NONCE_LEN ==> parsed(blob_text(nonce, ciphertext)) == Ok::<_, VaultError>(
            (nonce, ciphertext),
        ),
        nonce.len() != NONCE_LEN ==> !nonce_ok(blob_text(nonce, ciphertext)),
{
    encoding::lemma_b64_no_colon(nonce);
    encoding::lemma_b64_round_trip(nonce);
    encoding::lemma_b64_round_trip(ciphertext);
    text::lemma_split_colon(
        encoding::b64_text(nonce),
        encoding::b64_text(ciphertext),
    );
}

} // verus!
