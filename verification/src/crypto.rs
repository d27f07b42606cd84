//! Cryptographic primitives.
//!
//! # Layering
//!
//! * **Outer layer** — the whole vault file is encrypted under a key derived
//!   from the master password and the vault salt with **Argon2id** (slow on
//!   purpose; runs once per unlock), with AES-256-GCM over the payload.
//! * **Inner layer** — every entry carries its own random 32-byte
//!   `field_salt`. A per-entry key is derived with **HKDF-SHA256** from the
//!   vault key and the `field_salt`, and each field is encrypted under that key
//!   with its own random nonce.
//!
//! Because each field is encrypted on its own, the sidebar can decrypt only
//! the username column (see [`decrypt_username`]).

use aes_gcm::aead::rand_core::RngCore;
use aes_gcm::aead::{Aead, AeadCore, KeyInit, OsRng};
use aes_gcm::{Aes256Gcm, Key, Nonce};
use hkdf::Hkdf;
use sha2::Sha256;
use vstd::prelude::*;
use vstd::utf8::*;
use zeroize::Zeroize;

use crate::entry::{Entry, EntryView};
use crate::error::{result_view, Error, ErrorSpec};
use crate::text::push_char;

verus! {

broadcast use {encode_utf8_valid_utf8, encode_utf8_decode_utf8};

/// Length of generated salts, in bytes.
pub const SALT_LEN: usize = 32;

/// Length of the AES-256 key, in bytes.
pub const KEY_LEN: usize = 32;

/// Length of the AES-GCM nonce, in bytes.
pub const NONCE_LEN: usize = 12;

/// Length of the AES-GCM authentication tag that ends every ciphertext.
pub const TAG_LEN: usize = 16;

/// The longest plaintext AES-GCM accepts, in bytes (2^36).
pub const AES_GCM_MAX_PLAINTEXT: u64 = 0x10_0000_0000;

/// Argon2id memory cost in KiB (64 MiB).
pub const ARGON2_M_COST: u32 = 65536;

/// Argon2id iteration count.
pub const ARGON2_T_COST: u32 = 3;

/// Argon2id lane count.
pub const ARGON2_P_COST: u32 = 1;

/// HKDF domain-separation label for the per-entry key derivation.
pub const ENTRY_KEY_LABEL: &'static str = "statelock entry key v1";

/// Length of a generated password, in characters.
pub const PASSWORD_LEN: usize = 32;

/// Number of characters in the password alphabet.
pub const PASSWORD_ALPHABET_SIZE: usize = 94;

/// Random bytes below this bound are used, the rest are rejected: the largest
/// multiple of 94 that fits a byte (94 * 2), so that `b % 94` is unbiased.
pub const PASSWORD_SAMPLE_LIMIT: u8 = 188;

/// Random bytes drawn per round of the password generator.
pub const PASSWORD_DRAW: usize = 64;


// ── Outside types ──────────────────────────────────────────────────────────

#[verifier::external_type_specification]
#[verifier::external_body]
pub struct ExHkdfInvalidLength(hkdf::InvalidLength);


// ── Names for what the outside primitives compute ──────────────────────────

/// The AES-256-GCM encryption (ciphertext followed by the 16-byte tag) of
/// `plaintext` under `key` and `nonce`, with no associated data.
pub uninterp spec fn spec_aes256gcm_seal(key: Seq<u8>, nonce: Seq<u8>, plaintext: Seq<u8>) -> Seq<
    u8,
>;

/// The AES-256-GCM decryption of `ciphertext` (tag included) under `key` and
/// `nonce`, with no associated data: `None` when authentication fails.
pub uninterp spec fn spec_aes256gcm_open(key: Seq<u8>, nonce: Seq<u8>, ciphertext: Seq<u8>) -> Option<
    Seq<u8>,
>;

/// The first 32 bytes of HKDF-SHA256 output keying material for the given
/// salt, input keying material and info.
pub uninterp spec fn spec_hkdf_sha256(salt: Seq<u8>, ikm: Seq<u8>, info: Seq<u8>) -> Seq<u8>;

/// The 32-byte Argon2id (version 0x13) hash of `password` with `salt` and the
/// given memory, time and parallelism costs.
pub uninterp spec fn spec_argon2id(
    m_cost: u32,
    t_cost: u32,
    p_cost: u32,
    password: Seq<u8>,
    salt: Seq<u8>,
) -> Seq<u8>;

// ── Calls into the cryptography crates and std ──────────────────────────

/// `Aes256Gcm::encrypt` (after `Aes256Gcm::new`) with no associated data;
/// its error (the unit `aead::Error`) becomes `None`. Claims, as the aes-gcm
/// source shows, that it fails exactly when the plaintext is longer than 2^36
/// bytes, that the ciphertext is the plaintext length plus the 16-byte tag,
/// that it is the named encryption, and that decrypting it with the same key
/// and nonce gives the plaintext back.
#[verifier::external_body]
pub(crate) fn aes256gcm_encrypt(
    key: &[u8; KEY_LEN],
    nonce: &[u8; NONCE_LEN],
    plaintext: &[u8],
) -> (r: Option<Vec<u8>>)
    ensures
        r is Some <==> plaintext@.len() <= AES_GCM_MAX_PLAINTEXT,
        r matches Some(c) ==> c@ == spec_aes256gcm_seal(key@, nonce@, plaintext@),
        r matches Some(c) ==> c@.len() == plaintext@.len() + TAG_LEN,
        r matches Some(c) ==> spec_aes256gcm_open(key@, nonce@, c@) == Some(plaintext@),
{
    Aes256Gcm::new(Key::<Aes256Gcm>::from_slice(key)).encrypt(Nonce::from_slice(nonce), plaintext).ok()
}

/// `Aes256Gcm::decrypt` (after `Aes256Gcm::new`) with no associated data;
/// its error (the unit `aead::Error`) becomes `None`. Claims that its result
/// is the named decryption.
#[verifier::external_body]
pub(crate) fn aes256gcm_decrypt(
    key: &[u8; KEY_LEN],
    nonce: &[u8; NONCE_LEN],
    ciphertext: &[u8],
) -> (r: Option<Vec<u8>>)
    ensures
        r matches Some(p) ==> spec_aes256gcm_open(key@, nonce@, ciphertext@) == Some(p@),
        r is None ==> spec_aes256gcm_open(key@, nonce@, ciphertext@) is None,
{
    Aes256Gcm::new(Key::<Aes256Gcm>::from_slice(key)).decrypt(Nonce::from_slice(nonce), ciphertext).ok()
}

/// `Aes256Gcm::generate_nonce(&mut OsRng)`: a fresh random nonce. Nothing is
/// claimed of its value. It panics only if the operating system's random
/// source fails.
#[verifier::external_body]
pub(crate) fn random_nonce() -> (nonce: [u8; NONCE_LEN]) {
    let generated = Aes256Gcm::generate_nonce(&mut OsRng);
    let mut nonce = [0u8; NONCE_LEN];
    nonce.copy_from_slice(&generated);
    nonce
}

/// `OsRng.fill_bytes` on a buffer of `n` bytes. Claims only the length; the
/// bytes are random. It panics only if the operating system's random source
/// fails.
#[verifier::external_body]
pub(crate) fn os_random_bytes(n: usize) -> (bytes: Vec<u8>)
    ensures
        bytes@.len() == n,
{
    let mut bytes = vec![0u8; n];
    OsRng.fill_bytes(&mut bytes);
    bytes
}

/// `Hkdf::<Sha256>::new(Some(salt), ikm)` then `expand(info, ..)` into 32
/// bytes. Claims success (the hkdf source fails only past 255 * 32 bytes) and
/// that the output is the named HKDF value.
#[verifier::external_body]
fn hkdf_sha256(salt: &[u8], ikm: &[u8; KEY_LEN], info: &[u8]) -> (r: Result<
    [u8; KEY_LEN],
    hkdf::InvalidLength,
>)
    ensures
        r is Ok,
        r matches Ok(okm) ==> okm@ == spec_hkdf_sha256(salt@, ikm@, info@),
{
    let mut okm = [0u8; KEY_LEN];
    Hkdf::<Sha256>::new(Some(salt), ikm).expand(info, &mut okm)?;
    Ok(okm)
}

/// `argon2::Params::new(m, t, p, Some(32))` then `Argon2::new(Argon2id, V0x13,
/// ..).hash_password_into`, its errors (`argon2::Error`) becoming `None`.
/// With valid costs (required), the argon2 source fails exactly when the
/// password is longer than 2^32 - 1 bytes or the salt is shorter than 8 or
/// longer than 2^32 - 1 bytes; the output is the named Argon2id hash.
#[verifier::external_body]
fn argon2id_hash(
    m_cost: u32,
    t_cost: u32,
    p_cost: u32,
    password: &[u8],
    salt: &[u8],
) -> (r: Option<[u8; KEY_LEN]>)
    requires
        8 <= m_cost,
        8 * p_cost <= m_cost,
        1 <= t_cost,
        1 <= p_cost <= 0xFF_FFFF,
    ensures
        r is Some <==> (password@.len() <= u32::MAX && 8 <= salt@.len() <= u32::MAX),
        r matches Some(k) ==> k@ == spec_argon2id(m_cost, t_cost, p_cost, password@, salt@),
{
    let mut key = [0u8; KEY_LEN];
    let params = argon2::Params::new(m_cost, t_cost, p_cost, Some(key.len())).ok()?;
    argon2::Argon2::new(argon2::Algorithm::Argon2id, argon2::Version::V0x13, params)
        .hash_password_into(password, salt, &mut key)
        .ok()?;
    Some(key)
}

/// `std::str::from_utf8`, then an owned copy: claims, as std documents, that
/// it succeeds exactly on valid UTF-8 and then holds the decoded characters.
#[verifier::external_body]
pub(crate) fn string_from_utf8(bytes: &[u8]) -> (r: Option<String>)
    ensures
        r is Some <==> valid_utf8(bytes@),
        r matches Some(s) ==> s@ == decode_utf8(bytes@),
{
    match std::str::from_utf8(bytes) {
        Ok(s) => Some(s.to_owned()),
        Err(_) => None,
    }
}

/// `Zeroize::zeroize` on a 32-byte key: every byte becomes zero.
#[verifier::external_body]
pub(crate) fn wipe_key(key: &mut [u8; KEY_LEN])
    ensures
        final(key)@ == Seq::new(KEY_LEN as nat, |i: int| 0u8),
{
    key.zeroize();
}

// ── Key derivation ─────────────────────────────────────────────────────────

/// The vault key of a master password and a salt.
pub open spec fn spec_derive_key(password: Seq<char>, salt: Seq<u8>) -> Seq<u8> {
    spec_argon2id(ARGON2_M_COST, ARGON2_T_COST, ARGON2_P_COST, encode_utf8(password), salt)
}

/// Whether Argon2id accepts a password and a salt of these lengths.
pub open spec fn key_derivable(password: Seq<char>, salt: Seq<u8>) -> bool {
    &&& encode_utf8(password).len() <= u32::MAX
    &&& 8 <= salt.len() <= u32::MAX
}

/// Generate a cryptographically random salt.
pub fn generate_salt() -> (salt: [u8; SALT_LEN]) {
    let bytes = os_random_bytes(SALT_LEN);
    let mut salt = [0u8; SALT_LEN];
    for i in 0..SALT_LEN
        invariant
            bytes@.len() == SALT_LEN,
    {
        salt[i] = bytes[i];
    }
    salt
}

/// Derive the 256-bit vault key from the master password and salt with
/// Argon2id (64 MiB, 3 iterations, 1 lane).
pub fn derive_key(password: &str, salt: &[u8]) -> (key: [u8; KEY_LEN])
    requires
        key_derivable(password@, salt@),
    ensures
        key@ == spec_derive_key(password@, salt@),
        key@ == spec_argon2id(65536, 3, 1, encode_utf8(password@), salt@),
{
    proof {
        lemma_vault_key_is_argon2id(password@, salt@);
    }
    match argon2id_hash(ARGON2_M_COST, ARGON2_T_COST, ARGON2_P_COST, password.as_bytes(), salt) {
        Some(key) => key,
        None => {
            assert(false);
            [0u8; KEY_LEN]
        },
    }
}

/// The HKDF info label as bytes.
pub open spec fn entry_key_info() -> Seq<u8> {
    encode_utf8(ENTRY_KEY_LABEL@)
}

/// The per-entry key of a vault key and an entry's field salt.
pub open spec fn spec_entry_key(vault_key: Seq<u8>, field_salt: Seq<u8>) -> Seq<u8> {
    spec_hkdf_sha256(field_salt, vault_key, entry_key_info())
}

/// The vault key is Argon2id version 0x13 with 64 MiB of memory (65536 KiB),
/// 3 iterations and 1 lane, over the UTF-8 bytes of the master password and
/// the vault salt: a vault written with one password and salt opens with the
/// key those give.
pub proof fn lemma_vault_key_is_argon2id(password: Seq<char>, salt: Seq<u8>)
    ensures
        spec_derive_key(password, salt) == spec_argon2id(65536, 3, 1, encode_utf8(password), salt),
{
}

/// The per-entry key is HKDF-SHA256 with the entry's field salt as salt, the
/// vault key as input keying material and the UTF-8 bytes of
/// "statelock entry key v1" as info; entries with different field salts get
/// their keys from different HKDF salts.
pub proof fn lemma_entry_key_is_hkdf(vault_key: Seq<u8>, field_salt: Seq<u8>)
    ensures
        spec_entry_key(vault_key, field_salt) == spec_hkdf_sha256(
            field_salt,
            vault_key,
            encode_utf8("statelock entry key v1"@),
        ),
{
}

/// Derive the per-entry AES key from the vault key and the entry's salt with
/// HKDF-SHA256 (salt = `field_salt`, info = [`ENTRY_KEY_LABEL`]).
fn entry_key(vault_key: &[u8; KEY_LEN], field_salt: &[u8]) -> (r: Result<[u8; KEY_LEN], Error>)
    ensures
        r matches Ok(k) && k@ == spec_entry_key(vault_key@, field_salt@),
        r matches Ok(k) && k@ == spec_hkdf_sha256(
            field_salt@,
            vault_key@,
            encode_utf8("statelock entry key v1"@),
        ),
{
    proof {
        lemma_entry_key_is_hkdf(vault_key@, field_salt@);
    }
    match hkdf_sha256(field_salt, vault_key, ENTRY_KEY_LABEL.as_bytes()) {
        Ok(k) => Ok(k),
        Err(_) => Err(Error::crypto("HKDF expansion failed")),
    }
}

// ── Encrypted entry ────────────────────────────────────────────────────────

/// Encrypted form of a single entry. Every field is encrypted on its own so
/// the username can be revealed without touching the password.
pub struct EncryptedEntry {
    /// Random per-entry salt (public — used as the HKDF salt).
    pub field_salt: [u8; SALT_LEN],
    pub username: Vec<u8>,
    pub username_nonce: [u8; NONCE_LEN],
    pub password: Vec<u8>,
    pub password_nonce: [u8; NONCE_LEN],
    pub description: Vec<u8>,
    pub description_nonce: [u8; NONCE_LEN],
}

/// The mathematical value of an [`EncryptedEntry`].
pub struct EncryptedEntryView {
    pub field_salt: Seq<u8>,
    pub username: Seq<u8>,
    pub username_nonce: Seq<u8>,
    pub password: Seq<u8>,
    pub password_nonce: Seq<u8>,
    pub description: Seq<u8>,
    pub description_nonce: Seq<u8>,
}

impl View for EncryptedEntry {
    type V = EncryptedEntryView;

    open spec fn view(&self) -> EncryptedEntryView {
        EncryptedEntryView {
            field_salt: self.field_salt@,
            username: self.username@,
            username_nonce: self.username_nonce@,
            password: self.password@,
            password_nonce: self.password_nonce@,
            description: self.description@,
            description_nonce: self.description_nonce@,
        }
    }
}

impl EncryptedEntry {
    /// A field-by-field copy of this entry.
    pub fn duplicate(&self) -> (e: Self)
        ensures
            e@ == self@,
    {
        EncryptedEntry {
            field_salt: self.field_salt,
            username: self.username.clone(),
            username_nonce: self.username_nonce,
            password: self.password.clone(),
            password_nonce: self.password_nonce,
            description: self.description.clone(),
            description_nonce: self.description_nonce,
        }
    }
}

impl Clone for EncryptedEntry {
    fn clone(&self) -> (e: Self)
        ensures
            e@ == self@,
    {
        self.duplicate()
    }
}

// ── Field-level specification ──────────────────────────────────────────────

/// Whether a text field fits in one AES-GCM message.
pub open spec fn field_encryptable(text: Seq<char>) -> bool {
    encode_utf8(text).len() <= AES_GCM_MAX_PLAINTEXT
}

/// Whether every field of an entry fits in one AES-GCM message.
pub open spec fn entry_encryptable(e: EntryView) -> bool {
    &&& field_encryptable(e.username)
    &&& field_encryptable(e.password)
    &&& field_encryptable(e.description)
}

/// Whether `ciphertext` is the encryption of `text` under `key` and `nonce`:
/// the UTF-8 bytes of `text` followed by the 16-byte tag.
pub open spec fn seals_field(key: Seq<u8>, nonce: Seq<u8>, ciphertext: Seq<u8>, text: Seq<char>) -> bool {
    &&& ciphertext == spec_aes256gcm_seal(key, nonce, encode_utf8(text))
    &&& ciphertext.len() == encode_utf8(text).len() + TAG_LEN
}

/// Whether `enc` is an encryption of `e` under `vault_key`: each field is the
/// AES-256-GCM encryption of the plaintext field under the entry key, with the
/// nonce that `enc` records.
pub open spec fn encrypts(enc: EncryptedEntryView, e: EntryView, vault_key: Seq<u8>) -> bool {
    let k = spec_entry_key(vault_key, enc.field_salt);
    &&& enc.field_salt.len() == SALT_LEN
    &&& seals_field(k, enc.username_nonce, enc.username, e.username)
    &&& seals_field(k, enc.password_nonce, enc.password, e.password)
    &&& seals_field(k, enc.description_nonce, enc.description, e.description)
}

/// The result of decrypting one field.
pub open spec fn spec_decrypt_field(key: Seq<u8>, ciphertext: Seq<u8>, nonce: Seq<u8>) -> Result<
    Seq<char>,
    ErrorSpec,
> {
    match spec_aes256gcm_open(key, nonce, ciphertext) {
        None => Err(ErrorSpec::Crypto("field decryption failed — wrong key or corrupt data"@)),
        Some(p) => if valid_utf8(p) {
            Ok(decode_utf8(p))
        } else {
            Err(ErrorSpec::Corrupt("field is not valid UTF-8"@))
        },
    }
}

/// The result of decrypting a whole entry: fields in order username,
/// password, description; the first failure is the result.
pub open spec fn spec_decrypt_entry(enc: EncryptedEntryView, vault_key: Seq<u8>) -> Result<
    EntryView,
    ErrorSpec,
> {
    let k = spec_entry_key(vault_key, enc.field_salt);
    match spec_decrypt_field(k, enc.username, enc.username_nonce) {
        Err(e) => Err(e),
        Ok(u) => match spec_decrypt_field(k, enc.password, enc.password_nonce) {
            Err(e) => Err(e),
            Ok(p) => match spec_decrypt_field(k, enc.description, enc.description_nonce) {
                Err(e) => Err(e),
                Ok(d) => Ok(EntryView { username: u, password: p, description: d }),
            },
        },
    }
}

/// The result of decrypting only the username of an entry.
pub open spec fn spec_decrypt_username(enc: EncryptedEntryView, vault_key: Seq<u8>) -> Result<
    Seq<char>,
    ErrorSpec,
> {
    spec_decrypt_field(
        spec_entry_key(vault_key, enc.field_salt),
        enc.username,
        enc.username_nonce,
    )
}

/// Decrypting the username reads nothing but the field salt, the username
/// ciphertext and its nonce: entries that agree on those give the same
/// result whatever their password and description hold.
pub proof fn lemma_username_reads_only_username(
    a: EncryptedEntryView,
    b: EncryptedEntryView,
    vault_key: Seq<u8>,
)
    requires
        a.field_salt == b.field_salt,
        a.username == b.username,
        a.username_nonce == b.username_nonce,
    ensures
        spec_decrypt_username(a, vault_key) == spec_decrypt_username(b, vault_key),
{
}

// ── Field-level helpers ────────────────────────────────────────────────────

fn encrypt_field(key: &[u8; KEY_LEN], plaintext: &str) -> (r: Result<(Vec<u8>, [u8; NONCE_LEN]), Error>)
    ensures
        r is Ok <==> field_encryptable(plaintext@),
        r matches Ok((c, n)) ==> seals_field(key@, n@, c@, plaintext@),
        r matches Ok((c, n)) ==> spec_decrypt_field(key@, c@, n@) == Ok::<Seq<char>, ErrorSpec>(
            plaintext@,
        ),
        r matches Err(e) ==> e@ == ErrorSpec::Crypto("AES-GCM encryption failed"@),
{
    let nonce = random_nonce();
    match aes256gcm_encrypt(key, &nonce, plaintext.as_bytes()) {
        Some(ciphertext) => Ok((ciphertext, nonce)),
        None => Err(Error::crypto("AES-GCM encryption failed")),
    }
}

fn decrypt_field(key: &[u8; KEY_LEN], ciphertext: &[u8], nonce: &[u8; NONCE_LEN]) -> (r: Result<
    String,
    Error,
>)
    ensures
        result_view(r) == spec_decrypt_field(key@, ciphertext@, nonce@),
{
    match aes256gcm_decrypt(key, nonce, ciphertext) {
        Some(plaintext) => match string_from_utf8(plaintext.as_slice()) {
            Some(s) => Ok(s),
            None => Err(Error::corrupt("field is not valid UTF-8")),
        },
        None => Err(Error::crypto("field decryption failed — wrong key or corrupt data")),
    }
}

// ── Public API (key-based — fast, used during a live session) ──────────────

/// Encrypt an entry under a pre-derived vault key: a fresh random field salt,
/// and a fresh random nonce per field.
///
/// Decrypting the result with the same key gives the entry back.
pub fn encrypt_entry(entry: &Entry, vault_key: &[u8; KEY_LEN]) -> (r: Result<EncryptedEntry, Error>)
    ensures
        r is Ok <==> entry_encryptable(entry@),
        r matches Ok(enc) ==> encrypts(enc@, entry@, vault_key@),
        r matches Ok(enc) ==> spec_decrypt_entry(enc@, vault_key@) == Ok::<EntryView, ErrorSpec>(
            entry@,
        ),
        r matches Ok(enc) ==> spec_decrypt_username(enc@, vault_key@) == Ok::<
            Seq<char>,
            ErrorSpec,
        >(entry@.username),
        r matches Err(e) ==> e@ == ErrorSpec::Crypto("AES-GCM encryption failed"@),
{
    let field_salt = generate_salt();
    let mut key = match entry_key(vault_key, &field_salt) {
        Ok(k) => k,
        Err(e) => { return Err(e); },
    };
    let ghost k = key@;
    let (username, username_nonce) = match encrypt_field(&key, entry.username.as_str()) {
        Ok(f) => f,
        Err(e) => {
            wipe_key(&mut key);
            return Err(e);
        },
    };
    let (password, password_nonce) = match encrypt_field(&key, entry.password.as_str()) {
        Ok(f) => f,
        Err(e) => {
            wipe_key(&mut key);
            return Err(e);
        },
    };
    let (description, description_nonce) = match encrypt_field(
        &key,
        entry.description.as_str(),
    ) {
        Ok(f) => f,
        Err(e) => {
            wipe_key(&mut key);
            return Err(e);
        },
    };
    wipe_key(&mut key);
    let enc = EncryptedEntry {
        field_salt,
        username,
        username_nonce,
        password,
        password_nonce,
        description,
        description_nonce,
    };
    assert(spec_entry_key(vault_key@, enc@.field_salt) == k);
    Ok(enc)
}

/// Decrypt an entry with a pre-derived vault key.
pub fn decrypt_entry(enc: &EncryptedEntry, vault_key: &[u8; KEY_LEN]) -> (r: Result<Entry, Error>)
    ensures
        result_view(r) == spec_decrypt_entry(enc@, vault_key@),
{
    let mut key = match entry_key(vault_key, &enc.field_salt) {
        Ok(k) => k,
        Err(e) => { return Err(e); },
    };
    let username = match decrypt_field(&key, &enc.username, &enc.username_nonce) {
        Ok(s) => s,
        Err(e) => {
            wipe_key(&mut key);
            return Err(e);
        },
    };
    let password = match decrypt_field(&key, &enc.password, &enc.password_nonce) {
        Ok(s) => s,
        Err(e) => {
            wipe_key(&mut key);
            return Err(e);
        },
    };
    let description = match decrypt_field(&key, &enc.description, &enc.description_nonce) {
        Ok(s) => s,
        Err(e) => {
            wipe_key(&mut key);
            return Err(e);
        },
    };
    wipe_key(&mut key);
    Ok(Entry { username, password, description })
}

/// Decrypt only the username field. The password and description
/// ciphertexts are never read.
pub fn decrypt_username(enc: &EncryptedEntry, vault_key: &[u8; KEY_LEN]) -> (r: Result<
    String,
    Error,
>)
    ensures
        result_view(r) == spec_decrypt_username(enc@, vault_key@),
{
    let mut key = match entry_key(vault_key, &enc.field_salt) {
        Ok(k) => k,
        Err(e) => { return Err(e); },
    };
    let username = decrypt_field(&key, &enc.username, &enc.username_nonce);
    wipe_key(&mut key);
    username
}

// ── Password generator ─────────────────────────────────────────────────────

/// The alphabet of generated passwords: the 94 printable ASCII characters
/// other than space (letters, digits, then the 32 punctuation marks).
pub open spec fn password_alphabet() -> Seq<char> {
    "abcdefghijklmnopqrstuvwxyzABCDEFGHIJKLMNOPQRSTUVWXYZ0123456789!@#$%^&*()-_=+[]{}|;:,.<>?/~`'\"\\"@
}

/// The character at position `i` of the password alphabet.
fn password_alphabet_char(i: usize) -> (c: char)
    requires
        i < PASSWORD_ALPHABET_SIZE,
    ensures
        c == password_alphabet()[i as int],
{
    let chars =
        "abcdefghijklmnopqrstuvwxyzABCDEFGHIJKLMNOPQRSTUVWXYZ0123456789!@#$%^&*()-_=+[]{}|;:,.<>?/~`'\"\\";
    proof {
        reveal_strlit(
            "abcdefghijklmnopqrstuvwxyzABCDEFGHIJKLMNOPQRSTUVWXYZ0123456789!@#$%^&*()-_=+[]{}|;:,.<>?/~`'\"\\",
        );
    }
    chars.get_char(i)
}

/// The password characters that the random `bytes` add to `out`: a byte below
/// [`PASSWORD_SAMPLE_LIMIT`] adds `alphabet[b % 94]`, any other byte is
/// rejected; nothing is added once `out` holds [`PASSWORD_LEN`] characters.
pub open spec fn spec_fill_password(out: Seq<char>, bytes: Seq<u8>) -> Seq<char>
    decreases bytes.len(),
{
    if out.len() >= PASSWORD_LEN || bytes.len() == 0 {
        out
    } else if bytes[0] < PASSWORD_SAMPLE_LIMIT {
        spec_fill_password(
            out.push(password_alphabet()[(bytes[0] as int) % (PASSWORD_ALPHABET_SIZE as int)]),
            bytes.drop_first(),
        )
    } else {
        spec_fill_password(out, bytes.drop_first())
    }
}

/// Whether every character of `s` is in the password alphabet.
pub open spec fn in_password_alphabet(s: Seq<char>) -> bool {
    forall|i: int| 0 <= i < s.len() ==> password_alphabet().contains(#[trigger] s[i])
}

proof fn lemma_password_alphabet()
    ensures
        password_alphabet().len() == PASSWORD_ALPHABET_SIZE,
{
    reveal_strlit(
        "abcdefghijklmnopqrstuvwxyzABCDEFGHIJKLMNOPQRSTUVWXYZ0123456789!@#$%^&*()-_=+[]{}|;:,.<>?/~`'\"\\",
    );
}

/// Every character of the alphabet can be drawn: the accepted bytes `k` and
/// `k + 94` both give the `k`-th character, while a byte of 188 or more is
/// rejected and gives nothing.
pub proof fn lemma_sampling_reaches_every_character(k: int, b: u8)
    requires
        0 <= k < 94,
    ensures
        spec_fill_password(Seq::empty(), seq![k as u8]) == seq![password_alphabet()[k]],
        spec_fill_password(Seq::empty(), seq![(k + 94) as u8]) == seq![password_alphabet()[k]],
        b >= 188 ==> spec_fill_password(Seq::empty(), seq![b]).len() == 0,
{
    reveal_with_fuel(spec_fill_password, 2);
    lemma_password_alphabet();
    let one = seq![k as u8];
    let two = seq![(k + 94) as u8];
    assert((k as u8) as int == k);
    assert(((k + 94) as u8) as int == k + 94);
    let three = seq![b];
    assert(one.drop_first() =~= Seq::<u8>::empty());
    assert(two.drop_first() =~= Seq::<u8>::empty());
    assert(three.drop_first() =~= Seq::<u8>::empty());
    assert((k + 94) % 94 == k);
    assert(k % 94 == k);
    assert(Seq::<char>::empty().push(password_alphabet()[k]) =~= seq![password_alphabet()[k]]);
}

/// Sampling never grows a password past [`PASSWORD_LEN`] characters and only
/// adds characters of the alphabet.
pub proof fn lemma_fill_password(out: Seq<char>, bytes: Seq<u8>)
    requires
        out.len() <= PASSWORD_LEN,
        in_password_alphabet(out),
    ensures
        spec_fill_password(out, bytes).len() <= PASSWORD_LEN,
        out.len() <= spec_fill_password(out, bytes).len(),
        in_password_alphabet(spec_fill_password(out, bytes)),
    decreases bytes.len(),
{
    lemma_password_alphabet();
    if out.len() >= PASSWORD_LEN || bytes.len() == 0 {
    } else if bytes[0] < PASSWORD_SAMPLE_LIMIT {
        let c = password_alphabet()[(bytes[0] as int) % (PASSWORD_ALPHABET_SIZE as int)];
        let out2 = out.push(c);
        assert(password_alphabet().contains(c));
        assert(in_password_alphabet(out2)) by {
            assert forall|i: int| 0 <= i < out2.len() implies password_alphabet().contains(
                #[trigger] out2[i],
            ) by {
                if i < out.len() {
                    assert(out2[i] == out[i]);
                }
            }
        }
        lemma_fill_password(out2, bytes.drop_first());
    } else {
        lemma_fill_password(out, bytes.drop_first());
    }
}

/// Append to `out` the password characters that the random `bytes` yield by
/// rejection sampling, stopping once `out` holds [`PASSWORD_LEN`] characters.
/// [`generate_password`] feeds every round of random bytes through this.
pub fn sample_password_chars(out: &mut String, bytes: &[u8])
    requires
        old(out)@.len() <= PASSWORD_LEN,
    ensures
        final(out)@ == spec_fill_password(old(out)@, bytes@),
{
    proof {
        lemma_password_alphabet();
    }
    let n = bytes.len();
    let mut count = out.as_str().unicode_len();
    let mut i: usize = 0;
    assert(bytes@.skip(0) =~= bytes@);
    while i < n && count < PASSWORD_LEN
        invariant
            n == bytes@.len(),
            i <= n,
            count == out@.len(),
            count <= PASSWORD_LEN,
            password_alphabet().len() == PASSWORD_ALPHABET_SIZE,
            spec_fill_password(out@, bytes@.skip(i as int)) == spec_fill_password(
                old(out)@,
                bytes@,
            ),
        decreases n - i,
    {
        let b = bytes[i];
        assert(bytes@.skip(i as int)[0] == b);
        assert(bytes@.skip(i as int).drop_first() =~= bytes@.skip(i + 1));
        if b < PASSWORD_SAMPLE_LIMIT {
            let c = password_alphabet_char((b as usize) % PASSWORD_ALPHABET_SIZE);
            push_char(out, c);
            count = count + 1;
        }
        i = i + 1;
    }
    if i == n {
        assert(bytes@.skip(i as int).len() == 0);
    }
}

/// Turn a sequence of random bytes into a password by rejection sampling:
/// `Some` exactly when the bytes hold at least [`PASSWORD_LEN`] acceptable
/// bytes.
pub fn password_from_random(bytes: &[u8]) -> (r: Option<String>)
    ensures
        r is Some <==> spec_fill_password(Seq::empty(), bytes@).len() == PASSWORD_LEN,
        r matches Some(p) ==> p@ == spec_fill_password(Seq::empty(), bytes@),
{
    let mut out = String::new();
    sample_password_chars(&mut out, bytes);
    if out.as_str().unicode_len() == PASSWORD_LEN {
        Some(out)
    } else {
        None
    }
}

/// Generate a 32-character password from the 94 printable-ASCII characters,
/// with random bytes from the operating system and rejection sampling so
/// that every character is uniformly distributed (no modulo bias).
///
/// Random bytes are drawn in rounds of [`PASSWORD_DRAW`] and each round goes
/// through [`sample_password_chars`] until the password is complete. The
/// round counter is a `u64`: only if the random source rejected every byte of
/// `u64::MAX` rounds would the characters still missing be taken as `b % 94`
/// of fresh random bytes.
pub fn generate_password() -> (p: String)
    ensures
        p@.len() == PASSWORD_LEN,
        in_password_alphabet(p@),
{
    proof {
        lemma_password_alphabet();
    }
    let mut out = String::new();
    let mut round: u64 = 0;
    while round < u64::MAX
        invariant
            out@.len() <= PASSWORD_LEN,
            in_password_alphabet(out@),
        decreases u64::MAX - round,
    {
        let bytes = os_random_bytes(PASSWORD_DRAW);
        proof {
            lemma_fill_password(out@, bytes@);
        }
        sample_password_chars(&mut out, &bytes);
        if out.as_str().unicode_len() == PASSWORD_LEN {
            return out;
        }
        round = round + 1;
    }
    let bytes = os_random_bytes(PASSWORD_LEN);
    let start = out.as_str().unicode_len();
    let mut count = start;
    while count < PASSWORD_LEN
        invariant
            bytes@.len() == PASSWORD_LEN,
            start <= count <= PASSWORD_LEN,
            count == out@.len(),
            in_password_alphabet(out@),
            password_alphabet().len() == PASSWORD_ALPHABET_SIZE,
        decreases PASSWORD_LEN - count,
    {
        let c = password_alphabet_char((bytes[count - start] as usize) % PASSWORD_ALPHABET_SIZE);
        let ghost before = out@;
        push_char(&mut out, c);
        proof {
            assert(password_alphabet().contains(c));
            assert forall|i: int| 0 <= i < out@.len() implies password_alphabet().contains(
                #[trigger] out@[i],
            ) by {
                if i < before.len() {
                    assert(out@[i] == before[i]);
                }
            }
        }
        count = count + 1;
    }
    out
}

} // verus!
