use aes_gcm::aead::{Aead, KeyInit};
use aes_gcm::{Aes256Gcm, Key, Nonce};
use statelock::clipboard::{Clipboard, NullClipboard};
use statelock::enc::{
    decrypt_entry, decrypt_entry_with_key, encrypt_entry, encrypt_entry_with_key, EncryptedEntry,
};
use statelock::entry::Entry;
use statelock::error::Error;
use statelock::text::{contains_str, decimal};

#[test]
fn decimal_formatting() {
    assert_eq!(decimal(0), "0");
    assert_eq!(decimal(7), "7");
    assert_eq!(decimal(10), "10");
    assert_eq!(decimal(1234567), "1234567");
    assert_eq!(decimal(u64::MAX), u64::MAX.to_string());
}

#[test]
fn substring_search() {
    assert!(contains_str("github", "hub"));
    assert!(contains_str("github", ""));
    assert!(contains_str("", ""));
    assert!(!contains_str("git", "github"));
    assert!(!contains_str("github", "hib"));
    assert!(contains_str("naïve café", "é"));
}

#[test]
fn error_constructors_and_messages() {
    assert_eq!(Error::crypto("x").message(), "cryptographic error: x");
    assert_eq!(Error::corrupt("y").message(), "vault is corrupt or unreadable: y");
    assert_eq!(Error::invalid("z").message(), "z");
    assert_eq!(Error::Json("eof".to_string()).message(), "serialization error: eof");
    assert_eq!(Error::Io("gone".to_string()).message(), "I/O error: gone");
}

#[test]
fn entry_new_and_clone() {
    let e = Entry::new("u", "p", "d");
    assert_eq!(e.username, "u");
    assert_eq!(e.password, "p");
    assert_eq!(e.description, "d");
    assert_eq!(e.clone(), e);
}

#[test]
fn null_clipboard_always_fails() {
    let mut c = NullClipboard;
    assert_eq!(c.set_text("secret"), Err("clipboard unavailable".to_string()));
    c.clear();
}

#[test]
fn keyed_entry_round_trip() {
    let k = [9u8; 32];
    let e = Entry::new("user", "pass", "desc");
    let enc = encrypt_entry_with_key(&e, &k).unwrap();
    assert_eq!(enc.field_salt.len(), 32);
    assert_eq!(enc.username_nonce.len(), 12);
    assert_eq!(decrypt_entry_with_key(&enc, &k).unwrap(), e);
    assert!(decrypt_entry_with_key(&enc, &[8u8; 32]).is_err());
}

/// The entry key is the vault key XOR the field salt.
#[test]
fn keyed_entry_key_is_xor_fold() {
    let k = [0x5au8; 32];
    let enc = encrypt_entry_with_key(&Entry::new("user", "", ""), &k).unwrap();
    let folded: Vec<u8> = k.iter().zip(enc.field_salt.iter()).map(|(a, b)| a ^ b).collect();
    let cipher = Aes256Gcm::new(Key::<Aes256Gcm>::from_slice(&folded));
    let plain = cipher
        .decrypt(Nonce::from_slice(&enc.username_nonce), enc.username.as_slice())
        .unwrap();
    assert_eq!(plain, b"user");
}

#[test]
fn keyed_short_salt_is_rejected() {
    let k = [1u8; 32];
    let mut enc = encrypt_entry_with_key(&Entry::new("u", "p", "d"), &k).unwrap();
    enc.field_salt.truncate(31);
    assert_eq!(decrypt_entry_with_key(&enc, &k), Err("field_salt too short".to_string()));
}

#[test]
fn keyed_invalid_utf8_reports_utf8_error() {
    let k = [2u8; 32];
    let salt = vec![0u8; 32];
    let cipher = Aes256Gcm::new(Key::<Aes256Gcm>::from_slice(&k));
    let nonce = vec![3u8; 12];
    let bad = cipher.encrypt(Nonce::from_slice(&nonce), [0xffu8].as_slice()).unwrap();
    let enc = EncryptedEntry {
        field_salt: salt,
        username: bad.clone(),
        username_nonce: nonce.clone(),
        password: bad.clone(),
        password_nonce: nonce.clone(),
        description: bad,
        description_nonce: nonce,
    };
    assert_eq!(
        decrypt_entry_with_key(&enc, &k),
        Err("utf8 error: invalid utf-8 sequence of 1 bytes from index 0".to_string())
    );
}

#[test]
fn password_keyed_entry_round_trip() {
    let e = Entry::new("user", "pass", "desc");
    let enc = encrypt_entry(&e, "master").unwrap();
    assert_eq!(decrypt_entry(&enc, "master").unwrap(), e);
    let mut short = EncryptedEntry {
        field_salt: vec![0u8; 16],
        username: vec![],
        username_nonce: vec![0u8; 12],
        password: vec![],
        password_nonce: vec![0u8; 12],
        description: vec![],
        description_nonce: vec![0u8; 12],
    };
    assert_eq!(decrypt_entry(&short, "master"), Err("invalid field salt length".to_string()));
    short.field_salt = vec![0u8; 32];
    assert_eq!(
        decrypt_entry(&short, "master"),
        Err("field decryption failed — wrong password or corrupt data".to_string())
    );
}

#[test]
fn keyed_ciphertexts_are_utf8_length_plus_tag() {
    let k = [3u8; 32];
    let e = Entry::new("ab", "é", "");
    let enc = encrypt_entry_with_key(&e, &k).unwrap();
    assert_eq!(enc.username.len(), 2 + 16);
    assert_eq!(enc.password.len(), 2 + 16);
    assert_eq!(enc.description.len(), 16);
}

#[test]
fn keyed_decrypt_with_short_salt_fails_before_nonces() {
    let k = [3u8; 32];
    let mut enc = encrypt_entry_with_key(&Entry::new("a", "b", "c"), &k).unwrap();
    enc.field_salt.truncate(10);
    enc.username_nonce.clear();
    assert_eq!(decrypt_entry_with_key(&enc, &k), Err("field_salt too short".to_string()));
}
