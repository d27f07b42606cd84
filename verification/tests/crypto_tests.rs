use aes_gcm::aead::{Aead, KeyInit};
use aes_gcm::{Aes256Gcm, Key, Nonce};
use statelock::crypto::{
    decrypt_entry, decrypt_username, derive_key, encrypt_entry, generate_password,
    generate_salt, password_from_random, sample_password_chars, EncryptedEntry, KEY_LEN, NONCE_LEN, SALT_LEN,
};
use statelock::entry::Entry;
use statelock::error::Error;

const ALPHABET: &str =
    "abcdefghijklmnopqrstuvwxyzABCDEFGHIJKLMNOPQRSTUVWXYZ0123456789!@#$%^&*()-_=+[]{}|;:,.<>?/~`'\"\\";

fn key(b: u8) -> [u8; KEY_LEN] {
    [b; KEY_LEN]
}

#[test]
fn entry_round_trip() {
    let e = Entry::new("alice", "s3cr3t!", "mail account");
    let k = key(7);
    let enc = encrypt_entry(&e, &k).unwrap();
    assert_eq!(decrypt_entry(&enc, &k).unwrap(), e);
}

#[test]
fn entry_round_trip_unicode_and_empty_fields() {
    let e = Entry::new("ünïcødé 用户", "", "");
    let k = key(1);
    let enc = encrypt_entry(&e, &k).unwrap();
    assert_eq!(decrypt_entry(&enc, &k).unwrap(), e);
    assert_eq!(decrypt_username(&enc, &k).unwrap(), "ünïcødé 用户");
}

#[test]
fn username_only_decryption() {
    let e = Entry::new("bob", "pw", "desc");
    let k = key(3);
    let enc = encrypt_entry(&e, &k).unwrap();
    assert_eq!(decrypt_username(&enc, &k).unwrap(), "bob");
}

#[test]
fn ciphertexts_are_not_plaintext_and_carry_a_tag() {
    let e = Entry::new("carol", "hunter2", "notes");
    let k = key(9);
    let enc = encrypt_entry(&e, &k).unwrap();
    assert_eq!(enc.username.len(), "carol".len() + 16);
    assert_eq!(enc.password.len(), "hunter2".len() + 16);
    assert_ne!(&enc.username[..5], b"carol");
    assert_ne!(&enc.password[..7], b"hunter2");
}

#[test]
fn fresh_salt_and_nonces_per_encryption() {
    let e = Entry::new("dave", "pw", "");
    let k = key(2);
    let a = encrypt_entry(&e, &k).unwrap();
    let b = encrypt_entry(&e, &k).unwrap();
    assert_ne!(a.field_salt, b.field_salt);
    assert_ne!(a.username_nonce, a.password_nonce);
    assert_ne!(a.username, b.username);
}

#[test]
fn wrong_key_is_rejected() {
    let e = Entry::new("erin", "pw", "d");
    let enc = encrypt_entry(&e, &key(4)).unwrap();
    match decrypt_entry(&enc, &key(5)) {
        Err(err) => assert_eq!(
            err.message(),
            "cryptographic error: field decryption failed — wrong key or corrupt data"
        ),
        Ok(_) => panic!("decrypted with the wrong key"),
    }
    assert!(decrypt_username(&enc, &key(5)).is_err());
}

#[test]
fn tampered_ciphertext_is_rejected() {
    let e = Entry::new("frank", "pw", "d");
    let k = key(6);
    let mut enc = encrypt_entry(&e, &k).unwrap();
    enc.password[0] ^= 1;
    assert!(matches!(decrypt_entry(&enc, &k), Err(Error::Crypto(_))));
    // The username is still readable on its own.
    assert_eq!(decrypt_username(&enc, &k).unwrap(), "frank");
}

/// Fields encrypted directly under the vault key (no per-entry key) do not
/// decrypt: the entry key is derived, not the vault key itself.
#[test]
fn entry_key_differs_from_vault_key() {
    let k = key(8);
    let cipher = Aes256Gcm::new(Key::<Aes256Gcm>::from_slice(&k));
    let nonce = [1u8; NONCE_LEN];
    let ct = cipher.encrypt(Nonce::from_slice(&nonce), b"gina".as_slice()).unwrap();
    let enc = EncryptedEntry {
        field_salt: [0u8; SALT_LEN],
        username: ct.clone(),
        username_nonce: nonce,
        password: ct.clone(),
        password_nonce: nonce,
        description: ct,
        description_nonce: nonce,
    };
    assert!(decrypt_username(&enc, &k).is_err());
}

#[test]
fn tampered_nonce_is_rejected() {
    let k = key(10);
    let enc = encrypt_entry(&Entry::new("h", "p", "d"), &k).unwrap();
    let mut bad = enc.clone();
    bad.username_nonce[0] ^= 0xff;
    assert!(matches!(decrypt_username(&bad, &k), Err(Error::Crypto(_))));
}

#[test]
fn salts_are_random() {
    let a = generate_salt();
    let b = generate_salt();
    assert_eq!(a.len(), SALT_LEN);
    assert_ne!(a, b);
}

#[test]
fn derive_key_is_deterministic_and_salted() {
    let salt = [0x11u8; SALT_LEN];
    let k1 = derive_key("correct horse", &salt);
    let k2 = derive_key("correct horse", &salt);
    assert_eq!(k1, k2);
    assert_ne!(k1.to_vec(), salt.to_vec());
    let k3 = derive_key("correct horse", &[0x12u8; SALT_LEN]);
    assert_ne!(k1, k3);
}

#[test]
fn generated_password_shape() {
    let p = generate_password();
    assert_eq!(p.chars().count(), 32);
    assert!(p.chars().all(|c| ALPHABET.contains(c)));
    let q = generate_password();
    assert_ne!(p, q);
}

#[test]
fn password_alphabet_is_the_94_printable_characters() {
    assert_eq!(ALPHABET.chars().count(), 94);
    let mut sorted: Vec<char> = ALPHABET.chars().collect();
    sorted.sort();
    let expected: Vec<char> = (0x21u8..=0x7e).map(|b| b as char).collect();
    assert_eq!(sorted, expected);
}

#[test]
fn password_from_random_maps_and_rejects() {
    // 0..32 map to the first 32 characters.
    let bytes: Vec<u8> = (0u8..32).collect();
    assert_eq!(
        password_from_random(&bytes).unwrap(),
        "abcdefghijklmnopqrstuvwxyzABCDEF"
    );
    // 94 wraps to 'a', 93 is the last character, bytes >= 188 are skipped.
    let mut bytes = vec![94u8, 188, 255, 93, 187];
    bytes.extend(std::iter::repeat(0u8).take(29));
    assert_eq!(
        password_from_random(&bytes).unwrap(),
        format!("a\\\\{}", "a".repeat(29))
    );
}

#[test]
fn password_from_random_needs_enough_accepted_bytes() {
    let mut bytes = vec![200u8; 100];
    bytes.extend(std::iter::repeat(1u8).take(31));
    assert!(password_from_random(&bytes).is_none());
    bytes.push(2);
    assert_eq!(
        password_from_random(&bytes).unwrap(),
        format!("{}c", "b".repeat(31))
    );
}

#[test]
fn sampling_continues_a_partial_password_and_stops_at_32() {
    let mut out = String::from("xy");
    sample_password_chars(&mut out, &[0, 188, 1, 250]);
    assert_eq!(out, "xyab");
    let mut full = "a".repeat(31);
    sample_password_chars(&mut full, &[2, 3, 4]);
    assert_eq!(full, format!("{}c", "a".repeat(31)));
}

#[test]
fn every_ciphertext_is_utf8_length_plus_tag() {
    let e = Entry::new("ü", "", "description text");
    let enc = encrypt_entry(&e, &key(4)).unwrap();
    assert_eq!(enc.username.len(), 2 + 16);
    assert_eq!(enc.password.len(), 16);
    assert_eq!(enc.description.len(), "description text".len() + 16);
}
