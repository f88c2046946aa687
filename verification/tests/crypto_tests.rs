use aes_gcm::aead::{Aead, KeyInit};
use base64::Engine;
use halvor::crypto::{check_key, decrypt, encrypt, encrypt_with_nonce, export_key, import_key, key_from_store, CryptoError};

fn key() -> Vec<u8> {
    (0u8..32).collect()
}

#[test]
fn encrypt_then_decrypt_gives_secret_back() {
    let k = key();
    let sealed = encrypt(&k, "hunter2 and more").unwrap();
    assert_ne!(sealed, "hunter2 and more");
    assert_eq!(decrypt(&k, &sealed).unwrap(), "hunter2 and more");
}

#[test]
fn sealing_is_deterministic_for_a_nonce() {
    let k = key();
    let n = vec![7u8; 12];
    let a = encrypt_with_nonce(&k, &n, "x").unwrap();
    let b = encrypt_with_nonce(&k, &n, "x").unwrap();
    assert_eq!(a, b);
}

#[test]
fn decrypt_rejects_bad_input() {
    let k = key();
    assert!(matches!(decrypt(&k, "***"), Err(CryptoError::BadEncoding)));
    assert!(matches!(decrypt(&k, "AAAA"), Err(CryptoError::TooShort)));
    let other: Vec<u8> = vec![1u8; 32];
    let sealed = encrypt(&k, "secret").unwrap();
    assert!(matches!(decrypt(&other, &sealed), Err(CryptoError::DecryptFailed)));
}

#[test]
fn exported_key_imports_back() {
    let k = key();
    let text = export_key(&k);
    assert_eq!(import_key(&text).unwrap(), k);
    assert!(matches!(import_key("AAAA"), Err(CryptoError::WrongKeyLength)));
    assert!(matches!(import_key("!!"), Err(CryptoError::BadEncoding)));
}

#[test]
fn sealed_text_is_nonce_then_ciphertext_in_base64() {
    let k = key();
    let n = vec![9u8; 12];
    let cipher = aes_gcm::Aes256Gcm::new_from_slice(&k).unwrap();
    let ct = cipher.encrypt(aes_gcm::Nonce::from_slice(&n), "plain text".as_bytes()).unwrap();
    let mut combined = n.clone();
    combined.extend_from_slice(&ct);
    let expected = base64::engine::general_purpose::STANDARD.encode(&combined);
    assert_eq!(encrypt_with_nonce(&k, &n, "plain text").unwrap(), expected);
    assert_eq!(ct.len(), "plain text".len() + 16);
}

#[test]
fn decrypting_bytes_that_are_not_utf8_fails() {
    let k = key();
    let n = vec![3u8; 12];
    let cipher = aes_gcm::Aes256Gcm::new_from_slice(&k).unwrap();
    let ct = cipher.encrypt(aes_gcm::Nonce::from_slice(&n), &[0xffu8, 0xfe][..]).unwrap();
    let mut combined = n.clone();
    combined.extend_from_slice(&ct);
    let text = base64::engine::general_purpose::STANDARD.encode(&combined);
    assert!(matches!(decrypt(&k, &text), Err(CryptoError::NotUtf8)));
}

#[test]
fn export_is_standard_base64() {
    assert_eq!(export_key(&key()), "AAECAwQFBgcICQoLDA0ODxAREhMUFRYXGBkaGxwdHh8=");
    assert_eq!(export_key(&vec![1u8, 2, 3]), "AQID");
    assert_eq!(export_key(&Vec::new()), "");
}

#[test]
fn stored_keys_are_checked_and_missing_ones_made() {
    assert_eq!(key_from_store(Some(key())).unwrap(), key());
    assert!(matches!(key_from_store(Some(vec![1u8; 31])), Err(CryptoError::WrongKeyLength)));
    let fresh = key_from_store(None).unwrap();
    assert_eq!(fresh.len(), 32);
    assert_ne!(fresh, key_from_store(None).unwrap());
    assert!(matches!(check_key(vec![0u8; 33]), Err(CryptoError::WrongKeyLength)));
}
