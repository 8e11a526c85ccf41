use termhub::crypto::{decrypt, encrypt, encrypt_with, EncryptedEnvelope, ENVELOPE_VERSION};

#[test]
fn test_encrypt_decrypt() {
    let plaintext = "Hello, World! 你好世界";
    let password = "test_password_123";

    let envelope = encrypt(plaintext, password, Some("Test hint".to_string())).unwrap();
    let decrypted = decrypt(&envelope, password).unwrap();

    assert_eq!(plaintext, decrypted);
}

#[test]
fn test_wrong_password() {
    let plaintext = "Secret data";
    let password = "correct_password";
    let wrong_password = "wrong_password";

    let envelope = encrypt(plaintext, password, None).unwrap();
    let result = decrypt(&envelope, wrong_password);

    assert!(result.is_err());
}

#[test]
fn envelope_records_salt_nonce_hint_and_version() {
    let salt = [0u8; 16];
    let nonce = [0u8; 12];
    let e = encrypt_with("abc", "pw", Some("h".to_string()), &salt, &nonce).ok().unwrap();
    assert_eq!(e.salt, "AAAAAAAAAAAAAAAAAAAAAA==");
    assert_eq!(e.nonce, "AAAAAAAAAAAAAAAA");
    assert_eq!(e.hint, Some("h".to_string()));
    assert_eq!(e.version, ENVELOPE_VERSION);
    assert_ne!(e.ciphertext, "abc");
    let again = encrypt_with("abc", "pw", Some("h".to_string()), &salt, &nonce).ok().unwrap();
    assert_eq!(e.ciphertext, again.ciphertext);
    assert_eq!(decrypt(&e, "pw").unwrap(), "abc");
}

fn envelope(ciphertext: &str, nonce: &str, salt: &str) -> EncryptedEnvelope {
    EncryptedEnvelope {
        ciphertext: ciphertext.to_string(),
        nonce: nonce.to_string(),
        salt: salt.to_string(),
        hint: None,
        version: 1,
    }
}

#[test]
fn decrypt_rejects_bad_base64() {
    let r = decrypt(&envelope("!!", "AAAAAAAAAAAAAAAA", "AAAAAAAAAAAAAAAAAAAAAA=="), "pw");
    assert!(r.unwrap_err().starts_with("Ciphertext decode error"));
    let r = decrypt(&envelope("AAAA", "%%", "AAAAAAAAAAAAAAAAAAAAAA=="), "pw");
    assert!(r.unwrap_err().starts_with("Nonce decode error"));
    let r = decrypt(&envelope("AAAA", "AAAAAAAAAAAAAAAA", "?"), "pw");
    assert!(r.unwrap_err().starts_with("Salt decode error"));
}

#[test]
fn decrypt_rejects_short_nonce_and_salt() {
    assert!(decrypt(&envelope("AAAA", "AAAA", "AAAAAAAAAAAAAAAAAAAAAA=="), "pw").is_err());
    assert!(decrypt(&envelope("AAAA", "AAAAAAAAAAAAAAAA", "AA=="), "pw").is_err());
}
