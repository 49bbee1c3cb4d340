use transfer_core::crypto::{decrypt, encrypt, encrypt_fields, encrypt_fields_with_fallback};
use transfer_core::model::{Host, Protocol};

#[test]
fn mod_test_encrypt_decrypt_roundtrip() {
    let key = [42u8; 32];
    let plain = "secret password 123";
    let enc = encrypt(plain, &key).unwrap();
    assert!(enc.starts_with("enc:"));
    let dec = decrypt(&enc, &key).unwrap();
    assert_eq!(dec, plain);
}

#[test]
fn test_decrypt_empty_returns_empty() {
    let key = [0u8; 32];
    assert_eq!(decrypt("", &key).unwrap(), "");
}

#[test]
fn test_encrypt_empty_returns_empty() {
    let key = [0u8; 32];
    assert_eq!(encrypt("", &key).unwrap(), "");
}

#[test]
fn test_decrypt_plaintext_passthrough() {
    let key = [0u8; 32];
    assert_eq!(decrypt("plaintext", &key).unwrap(), "plaintext");
}

#[test]
fn test_decrypt_wrong_key_fails() {
    let key1 = [1u8; 32];
    let key2 = [2u8; 32];
    let enc = encrypt("secret", &key1).unwrap();
    assert!(decrypt(&enc, &key2).is_err());
}

#[test]
fn encryption_uses_fresh_nonces() {
    let key = [7u8; 32];
    let a = encrypt("same", &key).unwrap();
    let b = encrypt("same", &key).unwrap();
    assert_ne!(a, b);
    assert_ne!(a, "same");
}

#[test]
fn malformed_secrets_are_refused() {
    let key = [7u8; 32];
    assert!(decrypt("enc:***", &key).is_err());
    assert_eq!(decrypt("enc:AAAA", &key).unwrap_err(), "Data too short");
}

fn host_with(password: Option<&str>, key_path: Option<&str>) -> Host {
    let mut h = Host::new("n".into(), "h".into(), 21, Protocol::Ftp, "u".into());
    h.password = password.map(String::from);
    h.key_path = key_path.map(String::from);
    h
}

#[test]
fn fields_are_encrypted_only_with_a_key() {
    let key = [3u8; 32];
    let h = host_with(Some("pw"), Some(""));
    let (p, k) = encrypt_fields(&h, Some(&key)).unwrap();
    assert_eq!(decrypt(&p.unwrap(), &key).unwrap(), "pw");
    assert_eq!(k.as_deref(), Some(""));
    let (p, k) = encrypt_fields(&h, None).unwrap();
    assert_eq!(p.as_deref(), Some("pw"));
    assert_eq!(k.as_deref(), Some(""));
}

#[test]
fn empty_fields_fall_back_to_stored_values() {
    let key = [3u8; 32];
    let stored = host_with(Some("old"), None);
    let update = host_with(Some(""), None);
    let (p, k) = encrypt_fields_with_fallback(&update, &stored, Some(&key)).unwrap();
    assert_eq!(decrypt(&p.unwrap(), &key).unwrap(), "old");
    assert!(k.is_none());
    let (p, _) = encrypt_fields_with_fallback(&update, &stored, None).unwrap();
    assert_eq!(p.as_deref(), Some("old"));
    let fresh = host_with(Some("new"), None);
    let (p, _) = encrypt_fields_with_fallback(&fresh, &stored, None).unwrap();
    assert_eq!(p.as_deref(), Some("new"));
}
