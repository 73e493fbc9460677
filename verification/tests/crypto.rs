use aes_gcm::aead::{Aead, KeyInit};
use aes_gcm::{Aes256Gcm, Key, Nonce};
use argon2::{Algorithm, Argon2, Params, Version};
use base64::engine::general_purpose::STANDARD;
use base64::Engine;
use rustpass::buffer::SecureBuffer;
use rustpass::crypto::{
    check_verification, ciphertext_token, decrypt, decrypt_str, derive_index_key, derive_key,
    encrypt, encrypt_str, encrypt_with_nonce, first_key_bytes, generate_salt, has_nonce_ok,
    open_blob, open_text, parse_blob, site_hmac, verify_master_password, DerivedKey,
    VERIFY_PLAINTEXT,
};
use rustpass::error::{KdfFault, VaultError};
use rustpass::secret::SecretBytes;

fn secret(password: &str) -> SecretBytes {
    let mut buffer = SecureBuffer::default();
    buffer.assign(password);
    buffer.to_secret_vec()
}

fn key_of(password: &str) -> DerivedKey {
    derive_key(&secret(password), b"0123456789abcdef").unwrap()
}

fn direct_seal(key: &[u8; 32], nonce: &[u8; 12], plaintext: &[u8]) -> Vec<u8> {
    Aes256Gcm::new(Key::<Aes256Gcm>::from_slice(key))
        .encrypt(Nonce::from_slice(nonce), plaintext)
        .unwrap()
}

#[test]
fn key_is_argon2id_with_the_fixed_costs() {
    let params = Params::new(65536, 3, 4, Some(32)).unwrap();
    let argon2 = Argon2::new(Algorithm::Argon2id, Version::V0x13, params);
    let mut expected = [0u8; 32];
    argon2.hash_password_into("pässword".as_bytes(), b"0123456789abcdef", &mut expected).unwrap();
    assert_eq!(key_of("pässword").as_bytes(), &expected);
}

#[test]
fn key_depends_on_password_and_salt() {
    let password = secret("correct horse");
    let a = derive_key(&password, b"saltsalt").unwrap();
    let b = derive_key(&password, b"saltsalT").unwrap();
    assert_ne!(a.as_bytes(), b.as_bytes());
    assert_ne!(a.as_bytes(), derive_key(&secret("Correct horse"), b"saltsalt").unwrap().as_bytes());
    assert_eq!(a.as_bytes(), derive_key(&password, b"saltsalt").unwrap().as_bytes());
}

#[test]
fn short_salt_is_refused() {
    let fault = derive_key(&secret("pw"), b"1234567").err();
    assert_eq!(fault, Some(VaultError::KdfFailed(KdfFault::SaltTooShort)));
    assert!(derive_key(&secret(""), b"12345678").is_ok());
}

#[test]
fn salts_are_fresh() {
    let salt = generate_salt();
    assert_ne!(salt, [0u8; 32]);
    assert_ne!(salt, generate_salt());
}

#[test]
fn stored_form_is_base64_colon_base64() {
    let key = key_of("k");
    let nonce = [7u8; 12];
    let blob = encrypt_with_nonce(b"attack at dawn", &key, &nonce).unwrap();
    let sealed = direct_seal(key.as_bytes(), &nonce, b"attack at dawn");
    let expected = format!("{}:{}", STANDARD.encode(nonce), STANDARD.encode(&sealed));
    assert_eq!(blob, expected);
    assert!(blob.starts_with("BwcHBwcHBwcHBwcH:"));
    assert_eq!(parse_blob(&blob).unwrap(), (nonce.to_vec(), sealed));
}

#[test]
fn decrypting_gives_back_what_was_encrypted() {
    let key = key_of("k");
    for len in [0usize, 1, 2, 3, 15, 16, 17, 1000] {
        let plaintext: Vec<u8> = (0..len).map(|i| (i % 251) as u8).collect();
        let blob = encrypt(&plaintext, &key).unwrap();
        assert_eq!(decrypt(&blob, &key).unwrap(), plaintext);
        assert_eq!(open_blob(&blob, &key).unwrap(), plaintext);
    }
}

#[test]
fn decrypting_gives_back_the_text() {
    let key = key_of("k");
    for text in ["", "github.com", "şifre: 😀:😀"] {
        let blob = encrypt_str(text, &key).unwrap();
        assert_ne!(blob, text);
        assert!(has_nonce_ok(&blob));
        assert_eq!(decrypt_str(&blob, &key).unwrap(), text);
    }
}

#[test]
fn stored_form_has_the_length_of_its_parts() {
    let key = key_of("k");
    assert_eq!(encrypt_str("RUSTPASS_OK", &key).unwrap().len(), 53);
    for len in 0..50usize {
        let blob = encrypt(&vec![0u8; len], &key).unwrap();
        assert_eq!(blob.len(), 17 + 4 * ((len + 18) / 3));
        assert_eq!(blob.find(':'), Some(16));
        assert_eq!(blob.matches(':').count(), 1);
    }
}

#[test]
fn encrypting_twice_differs() {
    let key = key_of("k");
    assert_ne!(encrypt_str("same", &key).unwrap(), encrypt_str("same", &key).unwrap());
}

#[test]
fn malformed_blobs_are_told_apart() {
    let key = key_of("k");
    let nonce = STANDARD.encode([0u8; 12]);
    assert_eq!(decrypt("no separator", &key), Err(VaultError::InvalidFormat));
    assert_eq!(decrypt("", &key), Err(VaultError::InvalidFormat));
    assert_eq!(decrypt("!!:AAAA", &key), Err(VaultError::BadNonceEncoding));
    assert_eq!(decrypt("AAA:!!", &key), Err(VaultError::BadNonceEncoding));
    assert_eq!(decrypt(&format!("{nonce}:AAA"), &key), Err(VaultError::BadCiphertextEncoding));
    assert_eq!(decrypt(&format!("{nonce}:AA:A"), &key), Err(VaultError::BadCiphertextEncoding));
    assert_eq!(decrypt(&format!("{nonce}:AAAA"), &key), Err(VaultError::DecryptionFailed));
    assert_eq!(decrypt(&format!("{nonce}:"), &key), Err(VaultError::DecryptionFailed));
}

#[test]
fn nonce_of_the_wrong_length_is_reported() {
    let key = key_of("k");
    assert!(!has_nonce_ok("AAAA:AAAA"));
    assert!(!has_nonce_ok(":"));
    assert!(has_nonce_ok("AAAA"));
    assert!(has_nonce_ok("AAAA:AAA"));
    assert_eq!(open_blob("AAAA:AAAA", &key), Err(VaultError::MalformedNonce));
    assert_eq!(open_text(":", &key), Err(VaultError::MalformedNonce));
    assert_eq!(parse_blob("AAAA:AAAA"), Err(VaultError::MalformedNonce));
}

#[test]
fn tampering_and_other_keys_are_refused() {
    let key = key_of("k");
    let blob = encrypt_with_nonce(b"top secret", &key, &[1u8; 12]).unwrap();
    let (nonce, mut ciphertext) = parse_blob(&blob).unwrap();
    ciphertext[0] ^= 1;
    let forged = format!("{}:{}", STANDARD.encode(&nonce), STANDARD.encode(&ciphertext));
    assert_eq!(decrypt(&forged, &key), Err(VaultError::DecryptionFailed));
    assert_eq!(decrypt(&blob, &key_of("other")), Err(VaultError::DecryptionFailed));
}

#[test]
fn bytes_that_are_no_text_are_refused_as_text() {
    let key = key_of("k");
    let blob = encrypt(&[0x66, 0xff], &key).unwrap();
    assert_eq!(decrypt(&blob, &key).unwrap(), vec![0x66, 0xff]);
    assert_eq!(decrypt_str(&blob, &key), Err(VaultError::NotUtf8));
    assert_eq!(open_text(&blob, &key), Err(VaultError::NotUtf8));
}

#[test]
fn right_master_password_is_verified() {
    let key = key_of("right");
    let blob = encrypt_str(VERIFY_PLAINTEXT, &key).unwrap();
    let found = verify_master_password(&secret("right"), b"0123456789abcdef", &blob).unwrap();
    assert_eq!(found.as_bytes(), key.as_bytes());
}

#[test]
fn wrong_master_password_is_refused() {
    let blob = encrypt_str("RUSTPASS_OK", &key_of("right")).unwrap();
    let salt = b"0123456789abcdef";
    let wrong = verify_master_password(&secret("wrong"), salt, &blob).err();
    assert_eq!(wrong, Some(VaultError::WrongMasterPassword));
    let garbled = verify_master_password(&secret("right"), salt, "garbage").err();
    assert_eq!(garbled, Some(VaultError::WrongMasterPassword));
    let short = verify_master_password(&secret("right"), b"salt", &blob).err();
    assert_eq!(short, Some(VaultError::KdfFailed(KdfFault::SaltTooShort)));
}

#[test]
fn other_verification_text_is_refused() {
    let blob = encrypt_str("RUSTPASS_KO", &key_of("right")).unwrap();
    let fault = verify_master_password(&secret("right"), b"0123456789abcdef", &blob).err();
    assert_eq!(fault, Some(VaultError::VerificationMismatch));
}

#[test]
fn verification_text_decides() {
    assert_eq!(check_verification(Ok("RUSTPASS_OK".to_string())), Ok(()));
    let other = check_verification(Ok("rustpass_ok".to_string()));
    assert_eq!(other, Err(VaultError::VerificationMismatch));
    let failed = check_verification(Err(VaultError::NotUtf8));
    assert_eq!(failed, Err(VaultError::WrongMasterPassword));
}

#[test]
fn index_key_is_the_head_of_the_sealed_label() {
    let key = key_of("k");
    let sealed = direct_seal(key.as_bytes(), &[0u8; 12], b"rustpass-site-index-key-v1");
    assert_eq!(sealed.len(), 42);
    assert_eq!(derive_index_key(&key).to_vec(), sealed[..32].to_vec());
    assert_eq!(derive_index_key(&key), derive_index_key(&key));
}

#[test]
fn first_key_bytes_cuts_the_rest_off() {
    let bytes: Vec<u8> = (0..40).collect();
    assert_eq!(first_key_bytes(&bytes).to_vec(), bytes[..32].to_vec());
}

#[test]
fn token_of_an_empty_site() {
    assert_eq!(
        site_hmac(&[0u8; 32], ""),
        "530f8afbc74536b9a963b4f1c4cb738b00000000000000000000000000000000"
    );
}

#[test]
fn token_of_sixteen_bytes() {
    let site = "\0".repeat(16);
    assert_eq!(
        site_hmac(&[0u8; 32], &site),
        "cea7403d4d606b6e074ec5d3baf39d18d0d1c8a799996bf0265b98b5d48ab919"
    );
}

#[test]
fn tokens_have_32_bytes_whatever_the_site() {
    assert_eq!(site_hmac(&[0u8; 32], "github").len(), 64);
    for len in 0..80 {
        assert_eq!(site_hmac(&[9u8; 32], &"x".repeat(len)).len(), 64);
    }
    let sealed = direct_seal(&[9u8; 32], &[0u8; 12], b"github");
    assert_eq!(
        site_hmac(&[9u8; 32], "GitHub"),
        format!("{}{}", hex::encode(&sealed), "00".repeat(10))
    );
}

#[test]
fn long_sites_are_cut_to_32_bytes() {
    let site = "a-rather-long-host-name.example.org/with/a/path";
    let token = site_hmac(&[9u8; 32], site);
    assert_eq!(token.len(), 64);
    let sealed = direct_seal(&[9u8; 32], &[0u8; 12], site.as_bytes());
    assert_eq!(token, hex::encode(&sealed[..32]));
}

#[test]
fn tokens_ignore_case() {
    let key = [3u8; 32];
    assert_eq!(site_hmac(&key, "GitHub.com"), site_hmac(&key, "github.COM"));
    assert_eq!(site_hmac(&key, "ÄPFEL"), site_hmac(&key, "äpfel"));
    assert_ne!(site_hmac(&key, "GitHub.com"), site_hmac(&[4u8; 32], "GitHub.com"));
}

#[test]
fn tokens_tell_short_names_apart() {
    let key = [3u8; 32];
    assert_ne!(site_hmac(&key, "github.com"), site_hmac(&key, "gitlab.com"));
    assert_ne!(site_hmac(&key, "a"), site_hmac(&key, "aa"));
    assert_ne!(site_hmac(&key, "example.org/login"), site_hmac(&key, "example.com/login"));
}

#[test]
fn token_is_32_bytes_in_hexadecimal() {
    assert_eq!(ciphertext_token(&[0x0a, 0xff]), format!("0aff{}", "00".repeat(30)));
    assert_eq!(ciphertext_token(&[]), "00".repeat(32));
    assert_eq!(ciphertext_token(&[0x11; 40]), "11".repeat(32));
}

#[test]
fn errors_have_their_sentences() {
    let sentences = [
        (VaultError::KdfFailed(KdfFault::PasswordTooLong), "Argon2id KDF failed: password is too long"),
        (VaultError::KdfFailed(KdfFault::SaltTooShort), "Argon2id KDF failed: salt is too short"),
        (VaultError::KdfFailed(KdfFault::SaltTooLong), "Argon2id KDF failed: salt is too long"),
        (VaultError::EncryptionFailed, "Encryption failed: aead::Error"),
        (VaultError::InvalidFormat, "Invalid ciphertext format"),
        (VaultError::BadNonceEncoding, "Bad nonce encoding"),
        (VaultError::BadCiphertextEncoding, "Bad ciphertext encoding"),
        (VaultError::DecryptionFailed, "Decryption failed — wrong master password or corrupted data"),
        (VaultError::NotUtf8, "Decrypted bytes are not valid UTF-8"),
        (VaultError::WrongMasterPassword, "Wrong master password"),
        (VaultError::VerificationMismatch, "Verification string mismatch — vault may be corrupted"),
        (VaultError::NoSalt, "No salt — vault not initialised"),
        (VaultError::NoVerifier, "No verification blob"),
        (VaultError::CorruptSalt, "Corrupt salt"),
        (VaultError::NoIndexKey, "No index key stored"),
        (VaultError::CorruptIndexKey, "Corrupt index key"),
    ];
    for (error, sentence) in sentences {
        assert_eq!(error.message(), sentence);
        assert!(!error.is_fatal());
    }
    assert!(VaultError::MalformedNonce.is_fatal());
    assert!(VaultError::ShortIndexKey.is_fatal());
}

#[test]
fn outside_errors_read_as_the_sentences_do() {
    assert_eq!(argon2::Error::PwdTooLong.to_string(), "password is too long");
    assert_eq!(argon2::Error::SaltTooShort.to_string(), "salt is too short");
    assert_eq!(argon2::Error::SaltTooLong.to_string(), "salt is too long");
    assert_eq!(aes_gcm::Error.to_string(), "aead::Error");
}
