use statelock::crypto::{derive_key, KEY_LEN, NONCE_LEN, SALT_LEN};
use statelock::error::Error;
use statelock::vault::{
    decrypt, frame_vault_file, open_vault, parse_vault_file, seal_vault, VaultFile,
    PAYLOAD_OFFSET, VAULT_MAGIC,
};

#[test]
fn magic_is_sl01() {
    assert_eq!(&VAULT_MAGIC, b"SL01");
    assert_eq!(PAYLOAD_OFFSET, 4 + SALT_LEN + NONCE_LEN);
}

#[test]
fn too_small_file_is_corrupt() {
    let bytes = [0u8; 47];
    match parse_vault_file(&bytes) {
        Err(e) => assert_eq!(
            e.message(),
            "vault is corrupt or unreadable: file too small to be a Statelock vault"
        ),
        Ok(_) => panic!("accepted a short file"),
    }
}

#[test]
fn bad_magic_is_corrupt() {
    let mut bytes = vec![0u8; 60];
    bytes[..4].copy_from_slice(b"SL02");
    match parse_vault_file(&bytes) {
        Err(Error::Corrupt(m)) => assert_eq!(m, "not a Statelock vault file (bad magic)"),
        _ => panic!("accepted a bad magic"),
    }
}

#[test]
fn header_only_file_parses_with_empty_ciphertext() {
    let bytes = frame_vault_file(&[1u8; SALT_LEN], &[2u8; NONCE_LEN], &[]);
    assert_eq!(bytes.len(), PAYLOAD_OFFSET);
    let vf = parse_vault_file(&bytes).unwrap();
    assert_eq!(vf.salt, [1u8; SALT_LEN]);
    assert_eq!(vf.nonce, [2u8; NONCE_LEN]);
    assert!(vf.ciphertext.is_empty());
}

#[test]
fn frame_then_parse_gives_back_the_parts() {
    let salt = [7u8; SALT_LEN];
    let nonce = [9u8; NONCE_LEN];
    let bytes = frame_vault_file(&salt, &nonce, b"ciphertext");
    assert_eq!(&bytes[..4], b"SL01");
    assert_eq!(&bytes[4..36], &salt);
    assert_eq!(&bytes[36..48], &nonce);
    assert_eq!(&bytes[48..], b"ciphertext");
    let vf = parse_vault_file(&bytes).unwrap();
    assert_eq!(vf.salt, salt);
    assert_eq!(vf.nonce, nonce);
    assert_eq!(vf.ciphertext, b"ciphertext".to_vec());
}

#[test]
fn seal_then_decrypt_gives_back_the_payload() {
    let key = [3u8; KEY_LEN];
    let salt = [4u8; SALT_LEN];
    let payload = br#"{"entries":[]}"#;
    let bytes = seal_vault(payload, &key, &salt).unwrap();
    assert_eq!(bytes.len(), PAYLOAD_OFFSET + payload.len() + 16);
    let vf = parse_vault_file(&bytes).unwrap();
    assert_eq!(vf.salt, salt);
    assert_eq!(decrypt(&vf, &key).unwrap(), payload.to_vec());
}

#[test]
fn wrong_key_or_tampering_fails_decryption() {
    let key = [3u8; KEY_LEN];
    let bytes = seal_vault(b"payload", &key, &[4u8; SALT_LEN]).unwrap();
    let vf = parse_vault_file(&bytes).unwrap();
    match decrypt(&vf, &[5u8; KEY_LEN]) {
        Err(e) => assert_eq!(
            e.message(),
            "cryptographic error: decryption failed — wrong password or corrupt file"
        ),
        Ok(_) => panic!("decrypted with the wrong key"),
    }
    let mut tampered = VaultFile { salt: vf.salt, nonce: vf.nonce, ciphertext: vf.ciphertext.clone() };
    tampered.ciphertext[0] ^= 0x80;
    assert!(decrypt(&tampered, &key).is_err());
}

#[test]
fn open_vault_with_password() {
    let salt = [0x21u8; SALT_LEN];
    let key = derive_key("master", &salt);
    let bytes = seal_vault(b"{}", &key, &salt).unwrap();
    let opened = open_vault("master", &bytes).unwrap();
    assert_eq!(opened.salt, salt);
    assert_eq!(opened.key, key);
    assert_eq!(opened.payload, b"{}".to_vec());
    assert!(matches!(open_vault("wrong", &bytes), Err(Error::Crypto(_))));
    assert!(matches!(open_vault("master", &bytes[..10]), Err(Error::Corrupt(_))));
}

#[test]
fn sealed_file_length_and_reopen_with_password() {
    let salt = [4u8; SALT_LEN];
    let key = derive_key("master", &salt);
    let payload = b"[1,2,3]".to_vec();
    let bytes = seal_vault(&payload, &key, &salt).unwrap();
    assert_eq!(bytes.len(), PAYLOAD_OFFSET + payload.len() + 16);
    let opened = open_vault("master", &bytes).unwrap();
    assert_eq!(opened.salt, salt);
    assert_eq!(opened.key, key);
    assert_eq!(opened.payload, payload);
}
