use aes_gcm::aead::{Aead, KeyInit};
use base64::Engine;
use bgp_link_manager::crypto::{decrypt, derive_key, encrypt, fresh_salt, seal_with_nonce, CryptoError};

const SALT: &str = "c2FsdHNhbHRzYWx0c2FsdA=="; // "saltsaltsaltsalt"

fn key() -> [u8; 32] {
    derive_key("correct horse", SALT).expect("key")
}

#[test]
fn derive_key_is_deterministic_and_depends_on_passphrase() {
    let a = derive_key("correct horse", SALT).unwrap();
    let b = derive_key("correct horse", SALT).unwrap();
    let c = derive_key("battery staple", SALT).unwrap();
    assert_eq!(a, b);
    assert_ne!(a, c);
    assert_ne!(&a[..13], b"correct horse");
}

#[test]
fn derive_key_rejects_bad_salt_text() {
    let e = derive_key("pw", "***not base64***").unwrap_err();
    assert!(matches!(e, CryptoError::InvalidSalt));
    assert_eq!(e.message(), "invalid stored salt");
}

#[test]
fn derive_key_reports_short_salt() {
    let e = derive_key("pw", "YWJj").unwrap_err(); // "abc": 3 bytes
    match &e {
        CryptoError::Argon2(m) => assert_eq!(m, "salt is too short"),
        other => panic!("unexpected {:?}", other),
    }
    assert_eq!(e.message(), "argon2 error: salt is too short");
}

#[test]
fn encrypt_then_decrypt_gives_the_password_back() {
    let k = key();
    for pw in ["hunter2", "", "pässwörd ✓", "a much longer password with spaces"] {
        let sealed = encrypt(&k, pw).unwrap();
        assert_ne!(sealed, pw);
        assert_eq!(decrypt(&k, &sealed).unwrap(), pw);
    }
}

#[test]
fn encrypt_uses_fresh_nonces() {
    let k = key();
    let a = encrypt(&k, "same").unwrap();
    let b = encrypt(&k, "same").unwrap();
    assert_ne!(a, b);
    let blob = base64::engine::general_purpose::STANDARD.decode(&a).unwrap();
    assert_eq!(blob.len(), 12 + 4 + 16);
}

#[test]
fn seal_with_nonce_frames_nonce_and_ciphertext() {
    let k = key();
    let nonce = [7u8; 12];
    let a = seal_with_nonce(&k, &nonce, "secret").unwrap();
    let b = seal_with_nonce(&k, &nonce, "secret").unwrap();
    assert_eq!(a, b);
    let blob = base64::engine::general_purpose::STANDARD.decode(&a).unwrap();
    assert_eq!(&blob[..12], &nonce);
    let cipher = aes_gcm::Aes256Gcm::new(aes_gcm::Key::<aes_gcm::Aes256Gcm>::from_slice(&k));
    let plain = cipher.decrypt(aes_gcm::Nonce::from_slice(&nonce), &blob[12..]).unwrap();
    assert_eq!(plain, b"secret");
    assert_eq!(decrypt(&k, &a).unwrap(), "secret");
}

#[test]
fn decrypt_with_wrong_key_fails() {
    let sealed = encrypt(&key(), "hunter2").unwrap();
    let other = derive_key("wrong", SALT).unwrap();
    let e = decrypt(&other, &sealed).unwrap_err();
    assert!(matches!(e, CryptoError::DecryptionFailed));
    assert_eq!(e.message(), "decryption failed — wrong passphrase?");
}

#[test]
fn decrypt_rejects_bad_base64() {
    let e = decrypt(&key(), "%%%").unwrap_err();
    assert!(matches!(e, CryptoError::InvalidBase64));
    assert_eq!(e.message(), "invalid base64 in db");
}

#[test]
fn decrypt_rejects_short_blob() {
    let e = decrypt(&key(), "AAAA").unwrap_err();
    assert!(matches!(e, CryptoError::BlobTooShort));
    assert_eq!(e.message(), "blob too short");
}

#[test]
fn decrypt_rejects_non_utf8_plaintext() {
    let k = key();
    let nonce = [1u8; 12];
    let cipher = aes_gcm::Aes256Gcm::new(aes_gcm::Key::<aes_gcm::Aes256Gcm>::from_slice(&k));
    let ct = cipher.encrypt(aes_gcm::Nonce::from_slice(&nonce), &[0xffu8, 0xfe][..]).unwrap();
    let mut blob = nonce.to_vec();
    blob.extend_from_slice(&ct);
    let text = base64::engine::general_purpose::STANDARD.encode(blob);
    let e = decrypt(&k, &text).unwrap_err();
    assert!(matches!(e, CryptoError::NotUtf8));
    assert_eq!(e.message(), "decrypted password not utf-8");
}

#[test]
fn fresh_salt_is_sixteen_random_bytes() {
    let a = fresh_salt();
    let b = fresh_salt();
    assert_ne!(a, b);
    let bytes = base64::engine::general_purpose::STANDARD.decode(&a).unwrap();
    assert_eq!(bytes.len(), 16);
    assert!(derive_key("pw", &a).is_ok());
}

#[test]
fn encrypt_error_message() {
    assert_eq!(CryptoError::Encrypt.message(), "encrypt error: aead::Error");
}
