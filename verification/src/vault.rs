//! Vault lifecycle: creating, unlocking, sealing entries and searching for them.
use crate::cipher::{argon2id, gcm_seal, random_nonce, KEY_LEN, NONCE_LEN, SALT_LEN};
use crate::crypto::{
    derive_index_key, derive_key, derived, encrypt_with_nonce, first_key_bytes, generate_salt,
    has_nonce_ok, index_key, law_index_key_form, nonce_ok, open_text, opened_text, sealable,
    sealed_blob, seals, site_hmac, site_token, verified, verify_master_password, view_ok,
    DerivedKey, VERIFY_PLAINTEXT,
};
use crate::encoding::{hex_decode, hex_decoded, hex_encode, hex_text, lemma_hex_round_trip};
use crate::entry::{
    drop_other_sites, fields_of, is_other_site, law_substring_search_is_complete, site_matches,
    EncryptedEntry,
};
use crate::error::{KdfFault, VaultError};
use crate::secret::SecretBytes;
use crate::text::lowercase;
use vstd::prelude::*;
use vstd::seq_lib::group_filter_ensures;
use vstd::utf8::*;

verus! {

/// What the store holds of the vault itself; a field is `None` where no such row is there.
pub struct VaultMeta {
    /// The salt in hexadecimal.
    pub salt: Option<String>,
    /// The ciphertext of the verification text.
    pub verify: Option<String>,
    /// The ciphertext of the index key in hexadecimal.
    pub idx_key: Option<String>,
}

/// The rows that a new vault writes.
pub struct VaultRecords {
    pub salt: String,
    pub verify: String,
    pub idx_key: String,
}

/// The text of an optional row.
pub open spec fn row_text(row: Option<String>) -> Option<Seq<char>> {
    match row {
        Some(text) => Some(text@),
        None => None,
    }
}

/// The key that a master password unlocks a vault with, or why it does not.
pub open spec fn unlocked(
    salt: Option<Seq<char>>,
    verify: Option<Seq<char>>,
    password: Seq<u8>,
) -> Result<Seq<u8>, VaultError> {
    match (salt, verify) {
        (None, _) => Err(VaultError::NoSalt),
        (_, None) => Err(VaultError::NoVerifier),
        (Some(salt_hex), Some(blob)) => match hex_decoded(salt_hex) {
            None => Err(VaultError::CorruptSalt),
            Some(bytes) => match derived(password, bytes) {
                Err(e) => Err(e),
                Ok(_) => if nonce_ok(blob) {
                    verified(password, bytes, blob)
                } else {
                    Err(VaultError::MalformedNonce)
                },
            },
        },
    }
}

/// The index key behind its decrypted hexadecimal form.
pub open spec fn index_key_of_hex(hex: Seq<char>) -> Result<Seq<u8>, VaultError> {
    match hex_decoded(hex) {
        None => Err(VaultError::CorruptIndexKey),
        Some(bytes) => if bytes.len() >= KEY_LEN {
            Ok(bytes.take(KEY_LEN as int))
        } else {
            Err(VaultError::ShortIndexKey)
        },
    }
}

/// The index key that a vault's row holds under its key, or why it holds none.
pub open spec fn loaded_index_key(row: Option<Seq<char>>, key: Seq<u8>) -> Result<
    Seq<u8>,
    VaultError,
> {
    match row {
        None => Err(VaultError::NoIndexKey),
        Some(blob) => match opened_text(key, blob) {
            Err(e) => Err(e),
            Ok(hex) => index_key_of_hex(hex),
        },
    }
}

/// Reads an index key from its hexadecimal form.
pub fn index_key_from_hex(hex: &str) -> (key: Result<[u8; 32], VaultError>)
    ensures
        match key {
            Ok(k) => index_key_of_hex(hex@) == Ok::<Seq<u8>, VaultError>(k@),
            Err(e) => index_key_of_hex(hex@) == Err::<Seq<u8>, VaultError>(e),
        },
{
    match hex_decode(hex) {
        None => Err(VaultError::CorruptIndexKey),
        Some(bytes) => if bytes.len() >= KEY_LEN {
            Ok(first_key_bytes(bytes.as_slice()))
        } else {
            Err(VaultError::ShortIndexKey)
        },
    }
}

impl VaultMeta {
    /// A vault is there as soon as a salt is.
    pub fn is_initialised(&self) -> (yes: bool)
        ensures
            yes == (self.salt is Some),
    {
        self.salt.is_some()
    }

    /// Unlocks the vault: derives the key and checks it against the verification row.
    pub fn unlock(&self, master_password: &SecretBytes) -> (key: Result<DerivedKey, VaultError>)
        ensures
            view_ok(key) == unlocked(
                row_text(self.salt),
                row_text(self.verify),
                master_password@,
            ),
            key matches Ok(k) ==> {
                &&& self.salt matches Some(salt) && hex_decoded(salt@) matches Some(bytes) && k@
                    == argon2id(master_password@, bytes, 65536, 3, 4)
                &&& self.verify matches Some(blob) && opened_text(k@, blob@) == Ok::<
                    Seq<char>,
                    VaultError,
                >("RUSTPASS_OK"@)
            },
    {
        match (&self.salt, &self.verify) {
            (None, _) => Err(VaultError::NoSalt),
            (_, None) => Err(VaultError::NoVerifier),
            (Some(salt_hex), Some(blob)) => match hex_decode(salt_hex.as_str()) {
                None => Err(VaultError::CorruptSalt),
                Some(salt) => if has_nonce_ok(blob.as_str()) {
                    verify_master_password(master_password, salt.as_slice(), blob.as_str())
                } else {
                    match derive_key(master_password, salt.as_slice()) {
                        Err(e) => Err(e),
                        Ok(_) => Err(VaultError::MalformedNonce),
                    }
                },
            },
        }
    }

    /// Decrypts the index key.
    pub fn load_index_key(&self, key: &DerivedKey) -> (idx_key: Result<[u8; 32], VaultError>)
        ensures
            match idx_key {
                Ok(k) => loaded_index_key(row_text(self.idx_key), key@) == Ok::<
                    Seq<u8>,
                    VaultError,
                >(k@),
                Err(e) => loaded_index_key(row_text(self.idx_key), key@) == Err::<
                    Seq<u8>,
                    VaultError,
                >(e),
            },
    {
        match &self.idx_key {
            None => Err(VaultError::NoIndexKey),
            Some(blob) => match open_text(blob.as_str(), key) {
                Err(e) => Err(e),
                Ok(hex) => index_key_from_hex(hex.as_str()),
            },
        }
    }
}

/// Whether the rows are those of a vault that a password and a salt made with a key.
pub open spec fn is_vault_of(
    records: VaultRecords,
    password: Seq<u8>,
    salt: Seq<u8>,
    key: Seq<u8>,
) -> bool {
    &&& derived(password, salt) == Ok::<Seq<u8>, VaultError>(key)
    &&& records.salt@ == hex_text(salt)
    &&& seals(key, records.verify@, VERIFY_PLAINTEXT@)
    &&& index_key(key).len() == KEY_LEN
    &&& seals(key, records.idx_key@, hex_text(index_key(key)))
}

/// Whether the rows are those of a vault that a password and some salt made with a key.
pub open spec fn is_new_vault(records: VaultRecords, password: Seq<u8>, key: Seq<u8>) -> bool {
    exists|salt: Seq<u8>|
        salt.len() == SALT_LEN && #[trigger] is_vault_of(records, password, salt, key)
}

/// Makes a vault from a given salt and given nonces.
pub fn initialise_vault_with(
    master_password: &SecretBytes,
    salt: &[u8; SALT_LEN],
    verify_nonce: &[u8; NONCE_LEN],
    idx_key_nonce: &[u8; NONCE_LEN],
) -> (vault: Result<(DerivedKey, VaultRecords), VaultError>)
    ensures
        match vault {
            Ok((key, records)) => {
                &&& is_vault_of(records, master_password@, salt@, key@)
                &&& records.verify@ == sealed_blob(
                    key@,
                    verify_nonce@,
                    encode_utf8(VERIFY_PLAINTEXT@),
                )
                &&& records.idx_key@ == sealed_blob(
                    key@,
                    idx_key_nonce@,
                    encode_utf8(hex_text(index_key(key@))),
                )
            },
            Err(e) => derived(master_password@, salt@) == Err::<Seq<u8>, VaultError>(e),
        },
{
    let key: DerivedKey = match derive_key(master_password, salt.as_slice()) {
        Ok(key) => key,
        Err(e) => return Err(e),
    };
    let salt_hex: String = hex_encode(salt.as_slice());
    proof {
        lemma_verify_plaintext();
    }
    let verify: String = match seal_str(VERIFY_PLAINTEXT, &key, verify_nonce) {
        Ok(blob) => blob,
        Err(e) => return Err(e),
    };
    let idx_key: [u8; 32] = derive_index_key(&key);
    let idx_hex: String = hex_encode(idx_key.as_slice());
    proof {
        lemma_hex_utf8(idx_key@);
    }
    let idx_key_enc: String = match seal_str(idx_hex.as_str(), &key, idx_key_nonce) {
        Ok(blob) => blob,
        Err(e) => return Err(e),
    };
    Ok((key, VaultRecords { salt: salt_hex, verify, idx_key: idx_key_enc }))
}

/// Makes a vault with a fresh salt and fresh nonces.
pub fn initialise_vault(master_password: &SecretBytes) -> (vault: Result<
    (DerivedKey, VaultRecords),
    VaultError,
>)
    ensures
        vault is Ok <==> master_password@.len() <= u32::MAX,
        vault matches Err(e) ==> e == VaultError::KdfFailed(KdfFault::PasswordTooLong),
        vault matches Ok((key, records)) ==> is_new_vault(records, master_password@, key@),
{
    let salt: [u8; SALT_LEN] = generate_salt();
    let verify_nonce: [u8; NONCE_LEN] = random_nonce();
    let idx_key_nonce: [u8; NONCE_LEN] = random_nonce();
    initialise_vault_with(master_password, &salt, &verify_nonce, &idx_key_nonce)
}

/// Encrypts a text under a given nonce.
fn seal_str(plaintext: &str, key: &DerivedKey, nonce: &[u8; NONCE_LEN]) -> (blob: Result<
    String,
    VaultError,
>)
    ensures
        blob is Ok <==> sealable(encode_utf8(plaintext@).len()),
        blob matches Err(e) ==> e == VaultError::EncryptionFailed,
        blob matches Ok(b) ==> b@ == sealed_blob(key@, nonce@, encode_utf8(plaintext@)),
        blob matches Ok(b) ==> seals(key@, b@, plaintext@),
{
    proof {
        encode_utf8_valid_utf8(plaintext@);
        encode_utf8_decode_utf8(plaintext@);
    }
    encrypt_with_nonce(plaintext.as_bytes(), key, nonce)
}

proof fn lemma_verify_plaintext()
    ensures
        encode_utf8(VERIFY_PLAINTEXT@).len() == 11,
{
    reveal_strlit("RUSTPASS_OK");
    is_ascii_chars_encode_utf8(VERIFY_PLAINTEXT@);
}

proof fn lemma_hex_utf8(bytes: Seq<u8>)
    ensures
        encode_utf8(hex_text(bytes)).len() == 2 * bytes.len(),
{
    assert(is_ascii_chars(hex_text(bytes)));
    is_ascii_chars_encode_utf8(hex_text(bytes));
}

/// An entry as it is written to the store, without what the store itself adds.
pub struct SealedEntry {
    pub site_enc: String,
    pub site_idx: String,
    pub username_enc: String,
    pub password_enc: String,
    pub notes_enc: String,
}

/// Whether a sealed entry opens to these four texts and is indexed under this site.
pub open spec fn entry_holds(
    sealed: SealedEntry,
    key: Seq<u8>,
    idx_key: Seq<u8>,
    site: Seq<char>,
    username: Seq<char>,
    password: Seq<char>,
    notes: Seq<char>,
) -> bool {
    &&& sealed.site_idx@ == site_token(idx_key, site)
    &&& seals(key, sealed.site_enc@, site)
    &&& seals(key, sealed.username_enc@, username)
    &&& seals(key, sealed.password_enc@, password)
    &&& seals(key, sealed.notes_enc@, notes)
}

/// Whether all four texts of an entry can be stored.
pub open spec fn entry_sealable(
    site: Seq<char>,
    username: Seq<char>,
    password: Seq<char>,
    notes: Seq<char>,
) -> bool {
    sealable(encode_utf8(site).len()) && sealable(encode_utf8(username).len()) && sealable(
        encode_utf8(password).len(),
    ) && sealable(encode_utf8(notes).len())
}

/// Encrypts and indexes an entry under given nonces.
pub fn seal_entry_with(
    site: &str,
    username: &str,
    password: &str,
    notes: &str,
    key: &DerivedKey,
    idx_key: &[u8; 32],
    nonces: &[[u8; NONCE_LEN]; 4],
) -> (sealed: Result<SealedEntry, VaultError>)
    ensures
        sealed is Ok <==> entry_sealable(site@, username@, password@, notes@),
        sealed matches Err(e) ==> e == VaultError::EncryptionFailed,
        sealed matches Ok(s) ==> {
            &&& entry_holds(s, key@, idx_key@, site@, username@, password@, notes@)
            &&& s.site_enc@ == sealed_blob(key@, nonces@[0]@, encode_utf8(site@))
            &&& s.username_enc@ == sealed_blob(key@, nonces@[1]@, encode_utf8(username@))
            &&& s.password_enc@ == sealed_blob(key@, nonces@[2]@, encode_utf8(password@))
            &&& s.notes_enc@ == sealed_blob(key@, nonces@[3]@, encode_utf8(notes@))
        },
{
    let site_enc: String = match seal_str(site, key, &nonces[0]) {
        Ok(blob) => blob,
        Err(e) => return Err(e),
    };
    let site_idx: String = site_hmac(idx_key, site);
    let username_enc: String = match seal_str(username, key, &nonces[1]) {
        Ok(blob) => blob,
        Err(e) => return Err(e),
    };
    let password_enc: String = match seal_str(password, key, &nonces[2]) {
        Ok(blob) => blob,
        Err(e) => return Err(e),
    };
    let notes_enc: String = match seal_str(notes, key, &nonces[3]) {
        Ok(blob) => blob,
        Err(e) => return Err(e),
    };
    Ok(SealedEntry { site_enc, site_idx, username_enc, password_enc, notes_enc })
}

/// Why an entry cannot be sealed, if it cannot.
pub open spec fn seal_fault(
    idx_key: Result<Seq<u8>, VaultError>,
    sealable: bool,
) -> Option<VaultError> {
    match idx_key {
        Err(e) => Some(e),
        Ok(_) => if sealable {
            None
        } else {
            Some(VaultError::EncryptionFailed)
        },
    }
}

/// Encrypts an entry under fresh nonces and indexes its site with the vault's index key.
pub fn seal_entry(
    meta: &VaultMeta,
    site: &str,
    username: &str,
    password: &str,
    notes: &str,
    key: &DerivedKey,
) -> (sealed: Result<SealedEntry, VaultError>)
    ensures
        match sealed {
            Ok(s) => {
                &&& loaded_index_key(row_text(meta.idx_key), key@) is Ok
                &&& entry_sealable(site@, username@, password@, notes@)
                &&& entry_holds(
                    s,
                    key@,
                    loaded_index_key(row_text(meta.idx_key), key@)->Ok_0,
                    site@,
                    username@,
                    password@,
                    notes@,
                )
            },
            Err(e) => seal_fault(
                loaded_index_key(row_text(meta.idx_key), key@),
                entry_sealable(site@, username@, password@, notes@),
            ) == Some(e),
        },
{
    let idx_key: [u8; 32] = match meta.load_index_key(key) {
        Ok(idx_key) => idx_key,
        Err(e) => return Err(e),
    };
    let nonces: [[u8; NONCE_LEN]; 4] = [
        random_nonce(),
        random_nonce(),
        random_nonce(),
        random_nonce(),
    ];
    seal_entry_with(site, username, password, notes, key, &idx_key, &nonces)
}

/// The token to look a query up by.
pub fn search_token(meta: &VaultMeta, query: &str, key: &DerivedKey) -> (token: Result<
    String,
    VaultError,
>)
    ensures
        match (token, loaded_index_key(row_text(meta.idx_key), key@)) {
            (Ok(t), Ok(idx_key)) => t@ == site_token(idx_key, query@),
            (Err(e), Err(f)) => e == f,
            _ => false,
        },
{
    match meta.load_index_key(key) {
        Ok(idx_key) => Ok(site_hmac(&idx_key, query)),
        Err(e) => Err(e),
    }
}

/// How a search goes on once the rows with the query's token are known.
pub enum SearchStep {
    /// These rows are the answer.
    Found(Vec<EncryptedEntry>),
    /// Every row has to be listed and filtered by its decrypted site.
    ListAll,
}

/// The rows with the query's token are the answer, unless there are none. A row whose site decrypts
/// to another name, which can have the same token, does not count.
pub fn search_step(exact: Vec<EncryptedEntry>, query: &str, key: &DerivedKey) -> (step: SearchStep)
    ensures
        ({
            let kept = exact@.filter(|row: EncryptedEntry| !is_other_site(row, query@, key@));
            match step {
                SearchStep::Found(rows) => rows@ == kept && kept.len() > 0,
                SearchStep::ListAll => kept.len() == 0,
            }
        }),
{
    let kept: Vec<EncryptedEntry> = drop_other_sites(exact, query, key);
    if kept.is_empty() {
        SearchStep::ListAll
    } else {
        SearchStep::Found(kept)
    }
}

/// The password that made a vault unlocks it, with the key that was made.
pub proof fn law_unlock_after_initialise(
    records: VaultRecords,
    password: Seq<u8>,
    salt: Seq<u8>,
    key: Seq<u8>,
)
    requires
        is_vault_of(records, password, salt, key),
    ensures
        unlocked(Some(records.salt@), Some(records.verify@), password) == Ok::<
            Seq<u8>,
            VaultError,
        >(key),
{
    lemma_hex_round_trip(salt);
}

/// Any other password is refused as wrong, unless the Argon2id tag of that password opens the
/// verification ciphertext too; and what a vault is unlocked with is always the tag of the whole
/// password that was given.
pub proof fn law_other_password_is_refused(
    records: VaultRecords,
    password: Seq<u8>,
    salt: Seq<u8>,
    key: Seq<u8>,
    other: Seq<u8>,
)
    requires
        is_vault_of(records, password, salt, key),
    ensures
        ({
            let tag = argon2id(other, salt, 65536, 3, 4);
            let outcome = unlocked(Some(records.salt@), Some(records.verify@), other);
            &&& other.len() > 0xFFFF_FFFF ==> outcome == Err::<Seq<u8>, VaultError>(
                VaultError::KdfFailed(KdfFault::PasswordTooLong),
            )
            &&& other.len() <= 0xFFFF_FFFF && opened_text(tag, records.verify@) is Err ==> outcome
                == Err::<Seq<u8>, VaultError>(VaultError::WrongMasterPassword)
            &&& outcome matches Ok(k) ==> k == tag && opened_text(tag, records.verify@) == Ok::<
                Seq<char>,
                VaultError,
            >("RUSTPASS_OK"@)
        }),
{
    lemma_hex_round_trip(salt);
}

/// What a new vault holds: the salt in hexadecimal, and under the Argon2id tag of the password the
/// text `RUSTPASS_OK` and the hexadecimal form of the 32-byte index key of that tag.
pub proof fn law_new_vault_form(
    records: VaultRecords,
    password: Seq<u8>,
    salt: Seq<u8>,
    key: Seq<u8>,
    nonce: Seq<u8>,
)
    requires
        is_vault_of(records, password, salt, key),
        nonce.len() == 12,
        forall|i: int| 0 <= i < 12 ==> nonce[i] == 0,
    ensures
        password.len() <= 0xFFFF_FFFF,
        key == argon2id(password, salt, 65536, 3, 4),
        records.salt@ == hex_text(salt),
        opened_text(key, records.verify@) == Ok::<Seq<char>, VaultError>("RUSTPASS_OK"@),
        opened_text(key, records.idx_key@) == Ok::<Seq<char>, VaultError>(
            hex_text(
                gcm_seal(key, nonce, encode_utf8("rustpass-site-index-key-v1"@)).take(32),
            ),
        ),
{
    law_index_key_form(key, nonce);
}

/// A new vault is made from a salt of 32 bytes.
pub proof fn law_new_vault_has_a_salt(records: VaultRecords, password: Seq<u8>, key: Seq<u8>)
    requires
        is_new_vault(records, password, key),
    ensures
        exists|salt: Seq<u8>|
            salt.len() == 32 && records.salt@ == #[trigger] hex_text(salt) && key == argon2id(
                password,
                salt,
                65536,
                3,
                4,
            ),
        unlocked(Some(records.salt@), Some(records.verify@), password) == Ok::<
            Seq<u8>,
            VaultError,
        >(key),
{
    let salt = choose|salt: Seq<u8>|
        salt.len() == SALT_LEN && #[trigger] is_vault_of(records, password, salt, key);
    law_unlock_after_initialise(records, password, salt, key);
    assert(records.salt@ == hex_text(salt));
}

/// A vault's rows are read as they are; a missing one stays missing.
pub proof fn law_row_text(row: Option<String>)
    ensures
        row matches Some(text) ==> row_text(row) == Some(text@),
        row is None ==> row_text(row) is None,
{
}

/// Which password unlocks which rows: with a hexadecimal salt of at least 8 bytes, exactly one whose
/// Argon2id tag opens the verification row to `RUSTPASS_OK`. Everything else is refused with its
/// reason, in the order of a missing salt, a missing verification row, a salt that is not
/// hexadecimal, and what the key derivation refuses.
pub proof fn law_unlock(
    salt_hex: Seq<char>,
    blob: Seq<char>,
    verify: Option<Seq<char>>,
    password: Seq<u8>,
)
    requires
        password.len() <= 0xFFFF_FFFF,
    ensures
        unlocked(None, verify, password) == Err::<Seq<u8>, VaultError>(VaultError::NoSalt),
        unlocked(Some(salt_hex), None, password) == Err::<Seq<u8>, VaultError>(
            VaultError::NoVerifier,
        ),
        match hex_decoded(salt_hex) {
            None => unlocked(Some(salt_hex), Some(blob), password) == Err::<Seq<u8>, VaultError>(
                VaultError::CorruptSalt,
            ),
            Some(salt) => {
                let key = argon2id(password, salt, 65536, 3, 4);
                let outcome = unlocked(Some(salt_hex), Some(blob), password);
                &&& salt.len() < 8 ==> outcome == Err::<Seq<u8>, VaultError>(
                    VaultError::KdfFailed(KdfFault::SaltTooShort),
                )
                &&& 8 <= salt.len() <= 0xFFFF_FFFF ==> match opened_text(key, blob) {
                    Ok(text) => outcome == (if text == "RUSTPASS_OK"@ {
                        Ok::<Seq<u8>, VaultError>(key)
                    } else {
                        Err::<Seq<u8>, VaultError>(VaultError::VerificationMismatch)
                    }),
                    Err(VaultError::MalformedNonce) => outcome == Err::<Seq<u8>, VaultError>(
                        VaultError::MalformedNonce,
                    ),
                    Err(_) => outcome == Err::<Seq<u8>, VaultError>(
                        VaultError::WrongMasterPassword,
                    ),
                }
            },
        },
{
}

/// The index key that is loaded is the first 32 bytes of what the decrypted row stands for in
/// hexadecimal; a missing row, one that does not decrypt, one that is not hexadecimal and one that is
/// too short each give their own reason.
pub proof fn law_loading_the_index_key(blob: Seq<char>, key: Seq<u8>)
    ensures
        loaded_index_key(None, key) == Err::<Seq<u8>, VaultError>(VaultError::NoIndexKey),
        match opened_text(key, blob) {
            Err(e) => loaded_index_key(Some(blob), key) == Err::<Seq<u8>, VaultError>(e),
            Ok(hex) => match hex_decoded(hex) {
                None => loaded_index_key(Some(blob), key) == Err::<Seq<u8>, VaultError>(
                    VaultError::CorruptIndexKey,
                ),
                Some(bytes) => loaded_index_key(Some(blob), key) == (if bytes.len() < 32 {
                    Err::<Seq<u8>, VaultError>(VaultError::ShortIndexKey)
                } else {
                    Ok::<Seq<u8>, VaultError>(bytes.take(32))
                }),
            },
        },
{
}

/// Without a stored salt no password unlocks anything.
pub proof fn law_no_vault_without_salt(verify: Option<Seq<char>>, password: Seq<u8>)
    ensures
        unlocked(None, verify, password) == Err::<Seq<u8>, VaultError>(VaultError::NoSalt),
{
}

/// The index key that a new vault stores is read back as it was derived.
pub proof fn law_index_key_reads_back(
    records: VaultRecords,
    password: Seq<u8>,
    salt: Seq<u8>,
    key: Seq<u8>,
)
    requires
        is_vault_of(records, password, salt, key),
    ensures
        loaded_index_key(Some(records.idx_key@), key) == Ok::<Seq<u8>, VaultError>(
            index_key(key),
        ),
{
    lemma_hex_round_trip(index_key(key));
    assert(index_key(key).take(KEY_LEN as int) =~= index_key(key));
}

/// Whether a row holds what was sealed.
pub open spec fn row_holds(row: EncryptedEntry, sealed: SealedEntry) -> bool {
    &&& row.site_enc@ == sealed.site_enc@
    &&& row.site_idx@ == sealed.site_idx@
    &&& row.username_enc@ == sealed.username_enc@
    &&& row.password_enc@ == sealed.password_enc@
    &&& row.notes_enc@ == sealed.notes_enc@
}

/// A row that holds a sealed entry decrypts to the site, user name, password and notes that were
/// sealed.
pub proof fn law_entry_reads_back(
    row: EncryptedEntry,
    sealed: SealedEntry,
    key: Seq<u8>,
    idx_key: Seq<u8>,
    site: Seq<char>,
    username: Seq<char>,
    password: Seq<char>,
    notes: Seq<char>,
)
    requires
        entry_holds(sealed, key, idx_key, site, username, password, notes),
        row_holds(row, sealed),
    ensures
        row.nonces_ok(),
        fields_of(row, key) == Ok::<_, VaultError>((site, username, password, notes)),
{
}

/// Whether a row carries a token.
pub open spec fn has_token(token: Seq<char>) -> spec_fn(EncryptedEntry) -> bool {
    |row: EncryptedEntry| row.site_idx@ == token
}

/// The rows that carry a token, in their order.
pub open spec fn rows_with_token(rows: Seq<EncryptedEntry>, token: Seq<char>) -> Seq<
    EncryptedEntry,
> {
    rows.filter(has_token(token))
}

/// The rows that carry a query's token, but for those whose site decrypts to another name.
pub open spec fn rows_named(
    rows: Seq<EncryptedEntry>,
    query: Seq<char>,
    idx_key: Seq<u8>,
    key: Seq<u8>,
) -> Seq<EncryptedEntry> {
    rows_with_token(rows, site_token(idx_key, query)).filter(
        |row: EncryptedEntry| !is_other_site(row, query, key),
    )
}

/// What a search comes to over all rows: those with the query's token, but for those whose site
/// decrypts to another name, or where there are none those whose site holds the query.
pub open spec fn search_result(
    rows: Seq<EncryptedEntry>,
    query: Seq<char>,
    idx_key: Seq<u8>,
    key: Seq<u8>,
) -> Seq<EncryptedEntry> {
    let named = rows_named(rows, query, idx_key, key);
    if named.len() > 0 {
        named
    } else {
        rows.filter(|row: EncryptedEntry| site_matches(row, query, key))
    }
}

/// What `rows_named` keeps of the rows.
proof fn lemma_rows_named(
    rows: Seq<EncryptedEntry>,
    query: Seq<char>,
    idx_key: Seq<u8>,
    key: Seq<u8>,
    row: EncryptedEntry,
)
    ensures
        rows_named(rows, query, idx_key, key).contains(row) <==> rows.contains(row)
            && row.site_idx@ == site_token(idx_key, query) && !is_other_site(row, query, key),
{
    broadcast use group_filter_ensures;

    let carries = has_token(site_token(idx_key, query));
    let is_named = |r: EncryptedEntry| !is_other_site(r, query, key);
    let tokened = rows_with_token(rows, site_token(idx_key, query));
    let named = rows_named(rows, query, idx_key, key);
    if named.contains(row) {
        let i = named.index_of(row);
        assert(named[i] == row);
        assert(is_named(row));
        tokened.lemma_filter_contains_rev(is_named, row);
        let j = tokened.index_of(row);
        assert(tokened[j] == row);
        assert(carries(row));
        rows.lemma_filter_contains_rev(carries, row);
    }
    if rows.contains(row) && row.site_idx@ == site_token(idx_key, query) && !is_other_site(
        row,
        query,
        key,
    ) {
        let i = rows.index_of(row);
        assert(rows[i] == row && carries(rows[i]));
        assert(tokened.contains(row));
        let j = tokened.index_of(row);
        assert(tokened[j] == row && is_named(tokened[j]));
        assert(named.contains(row));
    }
}

/// A search finds every row that carries the query's token, but for those whose site decrypts to
/// another name.
pub proof fn law_search_finds_token(
    rows: Seq<EncryptedEntry>,
    row: EncryptedEntry,
    query: Seq<char>,
    idx_key: Seq<u8>,
    key: Seq<u8>,
)
    requires
        rows.contains(row),
        row.site_idx@ == site_token(idx_key, query),
        !is_other_site(row, query, key),
    ensures
        search_result(rows, query, idx_key, key).contains(row),
{
    lemma_rows_named(rows, query, idx_key, key, row);
}

/// A search for the name of a site, in upper or lower case, finds the row of an entry that was
/// sealed for the site, and shows no row whose site decrypts to another name.
pub proof fn law_search_finds_site(
    rows: Seq<EncryptedEntry>,
    row: EncryptedEntry,
    sealed: SealedEntry,
    key: Seq<u8>,
    idx_key: Seq<u8>,
    site: Seq<char>,
    username: Seq<char>,
    password: Seq<char>,
    notes: Seq<char>,
    query: Seq<char>,
)
    requires
        entry_holds(sealed, key, idx_key, site, username, password, notes),
        row_holds(row, sealed),
        rows.contains(row),
        lowercase(query) == lowercase(site),
    ensures
        search_result(rows, query, idx_key, key).contains(row),
        forall|other: EncryptedEntry| #[trigger]
            search_result(rows, query, idx_key, key).contains(other) ==> !is_other_site(
                other,
                query,
                key,
            ),
{
    lemma_rows_named(rows, query, idx_key, key, row);
    assert forall|other: EncryptedEntry| #[trigger]
        search_result(rows, query, idx_key, key).contains(other) implies !is_other_site(
        other,
        query,
        key,
    ) by {
        lemma_rows_named(rows, query, idx_key, key, other);
    }
}

/// A search shows stored rows only, and the site of each of them holds the query or does not
/// decrypt; one that does not decrypt carries the query's token.
pub proof fn law_search_shows_matches(
    rows: Seq<EncryptedEntry>,
    query: Seq<char>,
    idx_key: Seq<u8>,
    key: Seq<u8>,
    row: EncryptedEntry,
)
    requires
        search_result(rows, query, idx_key, key).contains(row),
    ensures
        rows.contains(row),
        site_matches(row, query, key) || (opened_text(key, row.site_enc@) is Err && row.site_idx@
            == site_token(idx_key, query)),
{
    broadcast use group_filter_ensures;

    let has_site = |r: EncryptedEntry| site_matches(r, query, key);
    let shown = search_result(rows, query, idx_key, key);
    let i = shown.index_of(row);
    assert(shown[i] == row);
    if rows_named(rows, query, idx_key, key).len() > 0 {
        lemma_rows_named(rows, query, idx_key, key, row);
        if let Ok(site) = opened_text(key, row.site_enc@) {
            let name = lowercase(site);
            assert(name.subrange(0, 0 + name.len() as int) =~= name);
        }
    } else {
        rows.lemma_filter_contains_rev(has_site, row);
        assert(has_site(row));
    }
}

/// A sealed entry opens, field by field, to the four texts, and carries the token of its site.
pub proof fn law_sealed_entry_form(
    sealed: SealedEntry,
    key: Seq<u8>,
    idx_key: Seq<u8>,
    site: Seq<char>,
    username: Seq<char>,
    password: Seq<char>,
    notes: Seq<char>,
)
    requires
        entry_holds(sealed, key, idx_key, site, username, password, notes),
    ensures
        opened_text(key, sealed.site_enc@) == Ok::<Seq<char>, VaultError>(site),
        opened_text(key, sealed.username_enc@) == Ok::<Seq<char>, VaultError>(username),
        opened_text(key, sealed.password_enc@) == Ok::<Seq<char>, VaultError>(password),
        opened_text(key, sealed.notes_enc@) == Ok::<Seq<char>, VaultError>(notes),
        sealed.site_idx@ == site_token(idx_key, site),
{
}

/// Every entry can be sealed whose four texts have a stored form each, once the index key is there;
/// without it, its reason is given.
pub proof fn law_what_can_be_sealed(
    site: Seq<char>,
    username: Seq<char>,
    password: Seq<char>,
    notes: Seq<char>,
    idx_key: Seq<u8>,
    why: VaultError,
)
    ensures
        entry_sealable(site, username, password, notes) <==> sealable(encode_utf8(site).len())
            && sealable(encode_utf8(username).len()) && sealable(encode_utf8(password).len())
            && sealable(encode_utf8(notes).len()),
        seal_fault(Ok(idx_key), true) is None,
        seal_fault(Ok(idx_key), false) == Some(VaultError::EncryptionFailed),
        seal_fault(Err(why), true) == Some(why),
        seal_fault(Err(why), false) == Some(why),
{
}

/// Where no row carries the query's name, the search by a part of the name is complete: a row is
/// found wherever its site decrypts to a name whose lower-case form is some text, the lower-case
/// query, and some more text. A row carries the name if it has the query's token and its site is the
/// query, cases aside, or does not decrypt.
pub proof fn law_search_finds_parts(
    rows: Seq<EncryptedEntry>,
    row: EncryptedEntry,
    query: Seq<char>,
    idx_key: Seq<u8>,
    key: Seq<u8>,
    site: Seq<char>,
    before: Seq<char>,
    behind: Seq<char>,
)
    requires
        rows.contains(row),
        opened_text(key, row.site_enc@) == Ok::<Seq<char>, VaultError>(site),
        lowercase(site) == before + lowercase(query) + behind,
        forall|r: EncryptedEntry| #[trigger]
            rows.contains(r) && r.site_idx@ == site_token(idx_key, query) ==> (opened_text(
                key,
                r.site_enc@,
            ) matches Ok(s) && lowercase(s) != lowercase(query)),
    ensures
        search_result(rows, query, idx_key, key).contains(row),
{
    let named = rows_named(rows, query, idx_key, key);
    if named.len() > 0 {
        assert(named.contains(named[0]));
        lemma_rows_named(rows, query, idx_key, key, named[0]);
        assert(false);
    }
    law_substring_search_is_complete(rows, row, query, key, site, before, behind);
}

} // verus!
