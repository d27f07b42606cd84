//! Entry encryption keyed by the master password or by a cached vault key,
//! with the per-entry key folded from the vault key and the field salt by XOR.
//!
//! * Key-based ([`encrypt_entry_with_key`], [`decrypt_entry_with_key`]):
//!   the entry key is `vault_key XOR field_salt[..32]` — no Argon2id.
//! * Password-based ([`encrypt_entry`], [`decrypt_entry`]): the entry key is
//!   Argon2id(master password, field salt) — slow on purpose.
//!
//! Errors are plain messages.

use vstd::prelude::*;
use vstd::utf8::*;

use crate::crypto::{
    aes256gcm_decrypt, aes256gcm_encrypt, field_encryptable, random_nonce, spec_aes256gcm_open,
    spec_aes256gcm_seal, spec_derive_key, string_from_utf8, EncryptedEntryView,
    KEY_LEN, NONCE_LEN, TAG_LEN,
};
use crate::entry::{Entry, EntryView};

verus! {

broadcast use {encode_utf8_valid_utf8, encode_utf8_decode_utf8};

/// Length of generated salts, in bytes.
pub const SALT_LEN: usize = 32;

/// The message `String::from_utf8` reports (through `Display`) for bytes that
/// are not valid UTF-8.
pub uninterp spec fn spec_utf8_error_message(bytes: Seq<u8>) -> Seq<char>;

/// The `Display` text of the `std::str::from_utf8` error for invalid bytes.
/// Claims that it is the named message.
#[verifier::external_body]
fn utf8_error_message(bytes: &[u8]) -> (m: String)
    requires
        !valid_utf8(bytes@),
    ensures
        m@ == spec_utf8_error_message(bytes@),
{
    match std::str::from_utf8(bytes) {
        Err(e) => e.to_string(),
        Ok(_) => String::new(),
    }
}

/// Encrypted form of an entry: every field and nonce as a byte vector.
pub struct EncryptedEntry {
    pub field_salt: Vec<u8>,
    pub username: Vec<u8>,
    pub username_nonce: Vec<u8>,
    pub password: Vec<u8>,
    pub password_nonce: Vec<u8>,
    pub description: Vec<u8>,
    pub description_nonce: Vec<u8>,
}

impl View for EncryptedEntry {
    type V = EncryptedEntryView;

    open spec fn view(&self) -> EncryptedEntryView {
        EncryptedEntryView {
            field_salt: self.field_salt@,
            username: self.username@,
            username_nonce: self.username_nonce@,
            password: self.password@,
            password_nonce: self.password_nonce@,
            description: self.description@,
            description_nonce: self.description_nonce@,
        }
    }
}

/// Generate a cryptographically random salt.
pub fn generate_salt() -> (salt: [u8; SALT_LEN]) {
    crate::crypto::generate_salt()
}

/// Derive a 256-bit key from a password and a salt with Argon2id (64 MiB, 3
/// iterations, 1 lane).
pub fn derive_key(password: &str, salt: &[u8; SALT_LEN]) -> (key: [u8; KEY_LEN])
    requires
        encode_utf8(password@).len() <= u32::MAX,
    ensures
        key@ == spec_derive_key(password@, salt@),
{
    crate::crypto::derive_key(password, salt)
}

/// The entry key folded from a vault key and a field salt: byte `i` is
/// `vault_key[i] ^ field_salt[i]`.
pub open spec fn spec_fold_key(vault_key: Seq<u8>, field_salt: Seq<u8>) -> Seq<u8> {
    Seq::new(KEY_LEN as nat, |i: int| vault_key[i] ^ field_salt[i])
}

/// The XOR-folded entry key, or an error when the salt is shorter than the key.
fn entry_cipher(vault_key: &[u8; KEY_LEN], field_salt: &[u8]) -> (r: Result<[u8; KEY_LEN], String>)
    ensures
        r is Ok <==> field_salt@.len() >= KEY_LEN,
        r matches Ok(k) ==> k@ == spec_fold_key(vault_key@, field_salt@),
        r matches Err(m) ==> m@ == "field_salt too short"@,
{
    if field_salt.len() < KEY_LEN {
        return Err(String::from_str("field_salt too short"));
    }
    let mut entry_key = [0u8; KEY_LEN];
    for i in 0..KEY_LEN
        invariant
            field_salt@.len() >= KEY_LEN,
            forall|j: int| 0 <= j < i ==> entry_key@[j] == vault_key@[j] ^ field_salt@[j],
    {
        entry_key[i] = vault_key[i] ^ field_salt[i];
    }
    assert(entry_key@ =~= spec_fold_key(vault_key@, field_salt@));
    Ok(entry_key)
}

/// The result of decrypting one field under `key`.
pub open spec fn spec_open_field(key: Seq<u8>, ciphertext: Seq<u8>, nonce: Seq<u8>) -> Result<
    Seq<char>,
    Seq<char>,
> {
    match spec_aes256gcm_open(key, nonce, ciphertext) {
        None => Err("field decryption failed — wrong password or corrupt data"@),
        Some(p) => if valid_utf8(p) {
            Ok(decode_utf8(p))
        } else {
            Err("utf8 error: "@ + spec_utf8_error_message(p))
        },
    }
}

/// Whether every nonce of `enc` has the AES-GCM nonce length.
pub open spec fn nonces_well_sized(enc: EncryptedEntryView) -> bool {
    &&& enc.username_nonce.len() == NONCE_LEN
    &&& enc.password_nonce.len() == NONCE_LEN
    &&& enc.description_nonce.len() == NONCE_LEN
}

/// The result of decrypting every field of `enc` under the entry key `key`,
/// in order username, password, description; the first failure is the result.
pub open spec fn spec_open_fields(enc: EncryptedEntryView, key: Seq<u8>) -> Result<
    EntryView,
    Seq<char>,
> {
    match spec_open_field(key, enc.username, enc.username_nonce) {
        Err(e) => Err(e),
        Ok(u) => match spec_open_field(key, enc.password, enc.password_nonce) {
            Err(e) => Err(e),
            Ok(p) => match spec_open_field(key, enc.description, enc.description_nonce) {
                Err(e) => Err(e),
                Ok(d) => Ok(EntryView { username: u, password: p, description: d }),
            },
        },
    }
}

/// The result of decrypting `enc` with a cached vault key.
pub open spec fn spec_decrypt_entry_with_key(enc: EncryptedEntryView, vault_key: Seq<u8>) -> Result<
    EntryView,
    Seq<char>,
> {
    if enc.field_salt.len() < KEY_LEN {
        Err("field_salt too short"@)
    } else {
        spec_open_fields(enc, spec_fold_key(vault_key, enc.field_salt))
    }
}

/// The result of decrypting `enc` with the master password.
pub open spec fn spec_decrypt_entry_with_password(enc: EncryptedEntryView, password: Seq<char>) -> Result<
    EntryView,
    Seq<char>,
> {
    if enc.field_salt.len() != SALT_LEN {
        Err("invalid field salt length"@)
    } else {
        spec_open_fields(enc, spec_derive_key(password, enc.field_salt))
    }
}

/// Whether `enc` holds the encryption of `e` under the entry key `key`: each
/// ciphertext is the field's UTF-8 bytes encrypted, followed by the 16-byte tag.
pub open spec fn seals_fields(enc: EncryptedEntryView, e: EntryView, key: Seq<u8>) -> bool {
    &&& nonces_well_sized(enc)
    &&& enc.username.len() == encode_utf8(e.username).len() + TAG_LEN
    &&& enc.password.len() == encode_utf8(e.password).len() + TAG_LEN
    &&& enc.description.len() == encode_utf8(e.description).len() + TAG_LEN
    &&& enc.username == spec_aes256gcm_seal(key, enc.username_nonce, encode_utf8(e.username))
    &&& enc.password == spec_aes256gcm_seal(key, enc.password_nonce, encode_utf8(e.password))
    &&& enc.description == spec_aes256gcm_seal(
        key,
        enc.description_nonce,
        encode_utf8(e.description),
    )
}

/// Whether every field of `e` fits in one AES-GCM message.
pub open spec fn fields_encryptable(e: EntryView) -> bool {
    &&& field_encryptable(e.username)
    &&& field_encryptable(e.password)
    &&& field_encryptable(e.description)
}

fn encrypt_field(key: &[u8; KEY_LEN], plaintext: &str) -> (r: Result<(Vec<u8>, Vec<u8>), String>)
    ensures
        r is Ok <==> field_encryptable(plaintext@),
        r matches Ok((c, n)) ==> n@.len() == NONCE_LEN && c@ == spec_aes256gcm_seal(
            key@,
            n@,
            encode_utf8(plaintext@),
        ),
        r matches Ok((c, n)) ==> c@.len() == encode_utf8(plaintext@).len() + TAG_LEN,
        r matches Ok((c, n)) ==> spec_open_field(key@, c@, n@) == Ok::<Seq<char>, Seq<char>>(
            plaintext@,
        ),
        r matches Err(m) ==> m@ == "encrypt failed: aead::Error"@,
{
    let nonce = random_nonce();
    match aes256gcm_encrypt(key, &nonce, plaintext.as_bytes()) {
        Some(ciphertext) => {
            let mut nonce_vec: Vec<u8> = Vec::new();
            for i in 0..NONCE_LEN
                invariant
                    nonce_vec@ =~= nonce@.subrange(0, i as int),
            {
                nonce_vec.push(nonce[i]);
            }
            assert(nonce_vec@ =~= nonce@);
            Ok((ciphertext, nonce_vec))
        },
        None => Err(String::from_str("encrypt failed: aead::Error")),
    }
}

fn decrypt_field(key: &[u8; KEY_LEN], ciphertext: &[u8], nonce_bytes: &[u8]) -> (r: Result<
    String,
    String,
>)
    requires
        nonce_bytes@.len() == NONCE_LEN,
    ensures
        match r {
            Ok(s) => spec_open_field(key@, ciphertext@, nonce_bytes@) == Ok::<
                Seq<char>,
                Seq<char>,
            >(s@),
            Err(m) => spec_open_field(key@, ciphertext@, nonce_bytes@) == Err::<
                Seq<char>,
                Seq<char>,
            >(m@),
        },
{
    let mut nonce = [0u8; NONCE_LEN];
    for i in 0..NONCE_LEN
        invariant
            nonce_bytes@.len() == NONCE_LEN,
            forall|j: int| 0 <= j < i ==> nonce@[j] == nonce_bytes@[j],
    {
        nonce[i] = nonce_bytes[i];
    }
    assert(nonce@ =~= nonce_bytes@);
    match aes256gcm_decrypt(key, &nonce, ciphertext) {
        None => Err(String::from_str("field decryption failed — wrong password or corrupt data")),
        Some(plaintext) => {
            match string_from_utf8(plaintext.as_slice()) {
                Some(s) => Ok(s),
                None => Err(
                    String::from_str("utf8 error: ").concat(
                        utf8_error_message(plaintext.as_slice()).as_str(),
                    ),
                ),
            }
        },
    }
}

/// Encrypt every field of an entry under an entry key.
fn seal_fields(entry: &Entry, key: &[u8; KEY_LEN], field_salt: Vec<u8>) -> (r: Result<
    EncryptedEntry,
    String,
>)
    ensures
        r is Ok <==> fields_encryptable(entry@),
        r matches Ok(enc) ==> enc@.field_salt == field_salt@ && seals_fields(enc@, entry@, key@),
        r matches Ok(enc) ==> spec_open_fields(enc@, key@) == Ok::<EntryView, Seq<char>>(entry@),
        r matches Err(m) ==> m@ == "encrypt failed: aead::Error"@,
{
    let (username, username_nonce) = match encrypt_field(key, entry.username.as_str()) {
        Ok(f) => f,
        Err(m) => { return Err(m); },
    };
    let (password, password_nonce) = match encrypt_field(key, entry.password.as_str()) {
        Ok(f) => f,
        Err(m) => { return Err(m); },
    };
    let (description, description_nonce) = match encrypt_field(key, entry.description.as_str()) {
        Ok(f) => f,
        Err(m) => { return Err(m); },
    };
    Ok(
        EncryptedEntry {
            field_salt,
            username,
            username_nonce,
            password,
            password_nonce,
            description,
            description_nonce,
        },
    )
}

/// Decrypt every field of an entry under an entry key.
fn open_fields(enc: &EncryptedEntry, key: &[u8; KEY_LEN]) -> (r: Result<Entry, String>)
    requires
        nonces_well_sized(enc@),
    ensures
        match r {
            Ok(e) => spec_open_fields(enc@, key@) == Ok::<EntryView, Seq<char>>(e@),
            Err(m) => spec_open_fields(enc@, key@) == Err::<EntryView, Seq<char>>(m@),
        },
{
    let username = match decrypt_field(key, &enc.username, &enc.username_nonce) {
        Ok(s) => s,
        Err(m) => { return Err(m); },
    };
    let password = match decrypt_field(key, &enc.password, &enc.password_nonce) {
        Ok(s) => s,
        Err(m) => { return Err(m); },
    };
    let description = match decrypt_field(key, &enc.description, &enc.description_nonce) {
        Ok(s) => s,
        Err(m) => { return Err(m); },
    };
    Ok(Entry { username, password, description })
}

/// Copy a salt into a byte vector.
fn salt_to_vec(salt: &[u8; SALT_LEN]) -> (v: Vec<u8>)
    ensures
        v@ == salt@,
{
    let mut v: Vec<u8> = Vec::new();
    for i in 0..SALT_LEN
        invariant
            v@ =~= salt@.subrange(0, i as int),
    {
        v.push(salt[i]);
    }
    assert(v@ =~= salt@);
    v
}

// ── Key-based (fast, used during a session) ────────────────────────────────

/// Encrypt an entry under a cached vault key: a fresh random field salt, the
/// entry key folded from it, and a fresh random nonce per field.
///
/// Decrypting the result with the same key gives the entry back.
pub fn encrypt_entry_with_key(entry: &Entry, vault_key: &[u8; KEY_LEN]) -> (r: Result<
    EncryptedEntry,
    String,
>)
    ensures
        r is Ok <==> fields_encryptable(entry@),
        r matches Ok(enc) ==> enc@.field_salt.len() == SALT_LEN && seals_fields(
            enc@,
            entry@,
            spec_fold_key(vault_key@, enc@.field_salt),
        ),
        r matches Ok(enc) ==> spec_decrypt_entry_with_key(enc@, vault_key@) == Ok::<
            EntryView,
            Seq<char>,
        >(entry@),
        r matches Err(m) ==> m@ == "encrypt failed: aead::Error"@,
{
    let field_salt = generate_salt();
    let key = match entry_cipher(vault_key, &field_salt) {
        Ok(k) => k,
        Err(m) => { return Err(m); },
    };
    seal_fields(entry, &key, salt_to_vec(&field_salt))
}

/// Decrypt an entry with a cached vault key.
pub fn decrypt_entry_with_key(enc: &EncryptedEntry, vault_key: &[u8; KEY_LEN]) -> (r: Result<
    Entry,
    String,
>)
    requires
        enc@.field_salt.len() >= KEY_LEN ==> nonces_well_sized(enc@),
    ensures
        match r {
            Ok(e) => spec_decrypt_entry_with_key(enc@, vault_key@) == Ok::<EntryView, Seq<char>>(
                e@,
            ),
            Err(m) => spec_decrypt_entry_with_key(enc@, vault_key@) == Err::<
                EntryView,
                Seq<char>,
            >(m@),
        },
{
    let key = match entry_cipher(vault_key, &enc.field_salt) {
        Ok(k) => k,
        Err(m) => { return Err(m); },
    };
    open_fields(enc, &key)
}

// ── Password-based (slow, runs Argon2id per entry) ─────────────────────────

/// Encrypt an entry under a key derived from the master password and a fresh
/// random field salt with Argon2id.
///
/// Decrypting the result with the same password gives the entry back.
pub fn encrypt_entry(entry: &Entry, master_pass: &str) -> (r: Result<EncryptedEntry, String>)
    requires
        encode_utf8(master_pass@).len() <= u32::MAX,
    ensures
        r is Ok <==> fields_encryptable(entry@),
        r matches Ok(enc) ==> enc@.field_salt.len() == SALT_LEN && seals_fields(
            enc@,
            entry@,
            spec_derive_key(master_pass@, enc@.field_salt),
        ),
        r matches Ok(enc) ==> spec_decrypt_entry_with_password(enc@, master_pass@) == Ok::<
            EntryView,
            Seq<char>,
        >(entry@),
        r matches Err(m) ==> m@ == "encrypt failed: aead::Error"@,
{
    let field_salt = generate_salt();
    let mut key = derive_key(master_pass, &field_salt);
    let r = seal_fields(entry, &key, salt_to_vec(&field_salt));
    crate::crypto::wipe_key(&mut key);
    r
}

/// Decrypt an entry with the master password.
pub fn decrypt_entry(enc: &EncryptedEntry, master_pass: &str) -> (r: Result<Entry, String>)
    requires
        encode_utf8(master_pass@).len() <= u32::MAX,
        enc@.field_salt.len() == SALT_LEN ==> nonces_well_sized(enc@),
    ensures
        match r {
            Ok(e) => spec_decrypt_entry_with_password(enc@, master_pass@) == Ok::<
                EntryView,
                Seq<char>,
            >(e@),
            Err(m) => spec_decrypt_entry_with_password(enc@, master_pass@) == Err::<
                EntryView,
                Seq<char>,
            >(m@),
        },
{
    if enc.field_salt.len() != SALT_LEN {
        return Err(String::from_str("invalid field salt length"));
    }
    let mut field_salt = [0u8; SALT_LEN];
    for i in 0..SALT_LEN
        invariant
            enc.field_salt@.len() == SALT_LEN,
            forall|j: int| 0 <= j < i ==> field_salt@[j] == enc.field_salt@[j],
    {
        field_salt[i] = enc.field_salt[i];
    }
    assert(field_salt@ =~= enc.field_salt@);
    let mut key = derive_key(master_pass, &field_salt);
    let r = open_fields(enc, &key);
    crate::crypto::wipe_key(&mut key);
    r
}

} // verus!
