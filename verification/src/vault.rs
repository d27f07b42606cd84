//! The vault file format.
//!
//! # File layout
//!
//! ```text
//! [4 bytes]  magic "SL01"
//! [32 bytes] vault_salt  — salt for the outer vault key
//! [12 bytes] nonce       — AES-GCM nonce for the outer layer
//! [N bytes]  ciphertext  — AES-GCM over the payload (the serialized entries)
//! ```
//!
//! Two independent layers protect the data: the outer layer key comes from
//! Argon2id(master password, vault_salt), and each entry's fields are keyed
//! separately through HKDF (see [`crate::crypto`]). Reading and writing the
//! file itself is the caller's business; this module frames, checks and
//! encrypts the bytes.

use vstd::prelude::*;
use vstd::utf8::*;

use crate::crypto::{
    aes256gcm_decrypt, aes256gcm_encrypt, derive_key, random_nonce,
    spec_aes256gcm_open, spec_aes256gcm_seal, spec_derive_key, EncryptedEntry,
    AES_GCM_MAX_PLAINTEXT, KEY_LEN, NONCE_LEN, SALT_LEN, TAG_LEN,
};
use crate::error::{result_view, Error, ErrorSpec};

verus! {

/// The four magic bytes "SL01" that start every vault file.
pub const VAULT_MAGIC: [u8; 4] = [0x53, 0x4C, 0x30, 0x31];

/// Offset of the vault salt in the file.
pub const SALT_OFFSET: usize = 4;

/// Offset of the outer nonce in the file.
pub const NONCE_OFFSET: usize = 36;

/// Offset of the encrypted payload in the file.
pub const PAYLOAD_OFFSET: usize = 48;

/// The decrypted contents of a vault: a list of still-encrypted entries.
///
/// The outer payload only ever holds [`EncryptedEntry`] values; per-field
/// plaintext is never written to disk.
pub struct Vault {
    pub entries: Vec<EncryptedEntry>,
}

/// A parsed but still encrypted vault file (header split off, no crypto done).
pub struct VaultFile {
    pub salt: [u8; SALT_LEN],
    pub nonce: [u8; NONCE_LEN],
    pub ciphertext: Vec<u8>,
}

/// The mathematical value of a [`VaultFile`].
pub struct VaultFileView {
    pub salt: Seq<u8>,
    pub nonce: Seq<u8>,
    pub ciphertext: Seq<u8>,
}

impl View for VaultFile {
    type V = VaultFileView;

    open spec fn view(&self) -> VaultFileView {
        VaultFileView { salt: self.salt@, nonce: self.nonce@, ciphertext: self.ciphertext@ }
    }
}

/// A vault opened with its master password.
pub struct OpenedVault {
    /// The vault salt from the file header.
    pub salt: [u8; SALT_LEN],
    /// The vault key derived from the master password and the salt.
    pub key: [u8; KEY_LEN],
    /// The decrypted payload.
    pub payload: Vec<u8>,
}

/// The mathematical value of an [`OpenedVault`].
pub struct OpenedVaultView {
    pub salt: Seq<u8>,
    pub key: Seq<u8>,
    pub payload: Seq<u8>,
}

impl View for OpenedVault {
    type V = OpenedVaultView;

    open spec fn view(&self) -> OpenedVaultView {
        OpenedVaultView { salt: self.salt@, key: self.key@, payload: self.payload@ }
    }
}

/// The magic bytes as a sequence.
pub open spec fn vault_magic() -> Seq<u8> {
    seq![0x53u8, 0x4Cu8, 0x30u8, 0x31u8]
}

/// The bytes of a vault file with the given header fields and ciphertext.
pub open spec fn spec_frame(salt: Seq<u8>, nonce: Seq<u8>, ciphertext: Seq<u8>) -> Seq<u8> {
    vault_magic() + salt + nonce + ciphertext
}

/// The result of reading the header of a vault file.
pub open spec fn spec_parse_vault_file(bytes: Seq<u8>) -> Result<VaultFileView, ErrorSpec> {
    if bytes.len() < PAYLOAD_OFFSET {
        Err(ErrorSpec::Corrupt("file too small to be a Statelock vault"@))
    } else if bytes.subrange(0, SALT_OFFSET as int) != vault_magic() {
        Err(ErrorSpec::Corrupt("not a Statelock vault file (bad magic)"@))
    } else {
        Ok(
            VaultFileView {
                salt: bytes.subrange(SALT_OFFSET as int, NONCE_OFFSET as int),
                nonce: bytes.subrange(NONCE_OFFSET as int, PAYLOAD_OFFSET as int),
                ciphertext: bytes.subrange(PAYLOAD_OFFSET as int, bytes.len() as int),
            },
        )
    }
}

/// The result of decrypting a parsed vault file with a key.
pub open spec fn spec_decrypt_vault(vf: VaultFileView, key: Seq<u8>) -> Result<Seq<u8>, ErrorSpec> {
    match spec_aes256gcm_open(key, vf.nonce, vf.ciphertext) {
        Some(p) => Ok(p),
        None => Err(ErrorSpec::Crypto("decryption failed — wrong password or corrupt file"@)),
    }
}

/// Whether `bytes` is a vault file holding `payload` encrypted under `key`,
/// with `salt` in its header and the nonce that the header records: the
/// 48-byte header, then the encrypted payload and its 16-byte tag, which
/// opens under the same key and nonce to the payload.
pub open spec fn seals_vault(bytes: Seq<u8>, payload: Seq<u8>, key: Seq<u8>, salt: Seq<u8>) -> bool {
    let nonce = bytes.subrange(NONCE_OFFSET as int, PAYLOAD_OFFSET as int);
    let ciphertext = spec_aes256gcm_seal(key, nonce, payload);
    &&& bytes.len() == PAYLOAD_OFFSET + payload.len() + TAG_LEN
    &&& bytes == spec_frame(salt, nonce, ciphertext)
    &&& spec_aes256gcm_open(key, nonce, ciphertext) == Some(payload)
}

/// The result of opening a vault file with a master password: read the
/// header, derive the key with Argon2id, decrypt the payload.
pub open spec fn spec_open_vault(master_pass: Seq<char>, bytes: Seq<u8>) -> Result<
    OpenedVaultView,
    ErrorSpec,
> {
    match spec_parse_vault_file(bytes) {
        Err(e) => Err(e),
        Ok(vf) => {
            let key = spec_derive_key(master_pass, vf.salt);
            match spec_decrypt_vault(vf, key) {
                Err(e) => Err(e),
                Ok(p) => Ok(OpenedVaultView { salt: vf.salt, key, payload: p }),
            }
        },
    }
}

/// Reading the header of a framed file gives back what was framed.
pub proof fn lemma_parse_frame(salt: Seq<u8>, nonce: Seq<u8>, ciphertext: Seq<u8>)
    requires
        salt.len() == SALT_LEN,
        nonce.len() == NONCE_LEN,
    ensures
        spec_parse_vault_file(spec_frame(salt, nonce, ciphertext)) == Ok::<
            VaultFileView,
            ErrorSpec,
        >(VaultFileView { salt, nonce, ciphertext }),
{
    let bytes = spec_frame(salt, nonce, ciphertext);
    assert(bytes.subrange(0, 4) =~= vault_magic());
    assert(bytes.subrange(4, 36) =~= salt);
    assert(bytes.subrange(36, 48) =~= nonce);
    assert(bytes.subrange(48, bytes.len() as int) =~= ciphertext);
}

/// A vault file sealed under the key that a master password derives from the
/// salt in its header opens with that password to the same salt, key and
/// payload.
pub proof fn lemma_open_sealed(
    master_pass: Seq<char>,
    salt: Seq<u8>,
    payload: Seq<u8>,
    bytes: Seq<u8>,
)
    requires
        salt.len() == SALT_LEN,
        seals_vault(bytes, payload, spec_derive_key(master_pass, salt), salt),
    ensures
        spec_open_vault(master_pass, bytes) == Ok::<OpenedVaultView, ErrorSpec>(
            OpenedVaultView { salt, key: spec_derive_key(master_pass, salt), payload },
        ),
{
    let key = spec_derive_key(master_pass, salt);
    let nonce = bytes.subrange(NONCE_OFFSET as int, PAYLOAD_OFFSET as int);
    lemma_parse_frame(salt, nonce, spec_aes256gcm_seal(key, nonce, payload));
}

/// Read and check the header of a vault file without decrypting anything.
pub fn parse_vault_file(bytes: &[u8]) -> (r: Result<VaultFile, Error>)
    ensures
        result_view(r) == spec_parse_vault_file(bytes@),
{
    if bytes.len() < PAYLOAD_OFFSET {
        return Err(Error::corrupt("file too small to be a Statelock vault"));
    }
    let mut i: usize = 0;
    while i < SALT_OFFSET
        invariant
            bytes@.len() >= PAYLOAD_OFFSET,
            i <= SALT_OFFSET,
            forall|j: int| 0 <= j < i ==> bytes@[j] == vault_magic()[j],
        decreases SALT_OFFSET - i,
    {
        if bytes[i] != VAULT_MAGIC[i] {
            assert(bytes@.subrange(0, SALT_OFFSET as int)[i as int] != vault_magic()[i as int]);
            return Err(Error::corrupt("not a Statelock vault file (bad magic)"));
        }
        i = i + 1;
    }
    assert(bytes@.subrange(0, SALT_OFFSET as int) =~= vault_magic());
    let mut salt = [0u8; SALT_LEN];
    for k in 0..SALT_LEN
        invariant
            bytes@.len() >= PAYLOAD_OFFSET,
            forall|j: int| 0 <= j < k ==> salt@[j] == bytes@[SALT_OFFSET + j],
    {
        salt[k] = bytes[SALT_OFFSET + k];
    }
    let mut nonce = [0u8; NONCE_LEN];
    for k in 0..NONCE_LEN
        invariant
            bytes@.len() >= PAYLOAD_OFFSET,
            forall|j: int| 0 <= j < k ==> nonce@[j] == bytes@[NONCE_OFFSET + j],
    {
        nonce[k] = bytes[NONCE_OFFSET + k];
    }
    let mut ciphertext: Vec<u8> = Vec::new();
    let n = bytes.len();
    for k in PAYLOAD_OFFSET..n
        invariant
            n == bytes@.len(),
            ciphertext@ =~= bytes@.subrange(PAYLOAD_OFFSET as int, k as int),
    {
        ciphertext.push(bytes[k]);
    }
    assert(salt@ =~= bytes@.subrange(SALT_OFFSET as int, NONCE_OFFSET as int));
    assert(nonce@ =~= bytes@.subrange(NONCE_OFFSET as int, PAYLOAD_OFFSET as int));
    Ok(VaultFile { salt, nonce, ciphertext })
}

/// The bytes of a vault file: magic, salt, nonce, ciphertext.
pub fn frame_vault_file(salt: &[u8; SALT_LEN], nonce: &[u8; NONCE_LEN], ciphertext: &[u8]) -> (r: Vec<
    u8,
>)
    ensures
        r@ == spec_frame(salt@, nonce@, ciphertext@),
{
    let mut bytes: Vec<u8> = Vec::new();
    for k in 0..4
        invariant
            bytes@ =~= vault_magic().subrange(0, k as int),
    {
        bytes.push(VAULT_MAGIC[k]);
    }
    for k in 0..SALT_LEN
        invariant
            bytes@ =~= vault_magic() + salt@.subrange(0, k as int),
    {
        bytes.push(salt[k]);
    }
    for k in 0..NONCE_LEN
        invariant
            bytes@ =~= vault_magic() + salt@ + nonce@.subrange(0, k as int),
    {
        bytes.push(nonce[k]);
    }
    let n = ciphertext.len();
    for k in 0..n
        invariant
            n == ciphertext@.len(),
            bytes@ =~= vault_magic() + salt@ + nonce@ + ciphertext@.subrange(0, k as int),
    {
        bytes.push(ciphertext[k]);
    }
    bytes
}

/// Decrypt a [`VaultFile`] with a pre-derived key, giving the payload.
pub fn decrypt(vf: &VaultFile, key: &[u8; KEY_LEN]) -> (r: Result<Vec<u8>, Error>)
    ensures
        result_view(r) == spec_decrypt_vault(vf@, key@),
{
    match aes256gcm_decrypt(key, &vf.nonce, vf.ciphertext.as_slice()) {
        Some(p) => Ok(p),
        None => Err(Error::crypto("decryption failed — wrong password or corrupt file")),
    }
}

/// Encrypt a payload under the vault key with a fresh random nonce and frame
/// it as a vault file.
///
/// Reading back the header and decrypting with the same key gives the payload.
pub fn seal_vault(payload: &[u8], key: &[u8; KEY_LEN], vault_salt: &[u8; SALT_LEN]) -> (r: Result<
    Vec<u8>,
    Error,
>)
    ensures
        r is Ok <==> payload@.len() <= AES_GCM_MAX_PLAINTEXT,
        r matches Ok(bytes) ==> seals_vault(bytes@, payload@, key@, vault_salt@),
        r matches Ok(bytes) ==> (spec_parse_vault_file(bytes@) matches Ok(vf) && vf.salt
            == vault_salt@ && spec_decrypt_vault(vf, key@) == Ok::<Seq<u8>, ErrorSpec>(payload@)),
        r matches Err(e) ==> e@ == ErrorSpec::Crypto("vault encryption failed"@),
{
    let nonce = random_nonce();
    match aes256gcm_encrypt(key, &nonce, payload) {
        Some(ciphertext) => {
            let bytes = frame_vault_file(vault_salt, &nonce, ciphertext.as_slice());
            proof {
                lemma_parse_frame(vault_salt@, nonce@, ciphertext@);
                assert(bytes@.subrange(NONCE_OFFSET as int, PAYLOAD_OFFSET as int) =~= nonce@);
            }
            Ok(bytes)
        },
        None => Err(Error::crypto("vault encryption failed")),
    }
}

/// Open a vault file with its master password: read the header, derive the
/// key with Argon2id (once), and decrypt the payload.
pub fn open_vault(master_pass: &str, bytes: &[u8]) -> (r: Result<OpenedVault, Error>)
    requires
        encode_utf8(master_pass@).len() <= u32::MAX,
    ensures
        result_view(r) == spec_open_vault(master_pass@, bytes@),
{
    let vf = match parse_vault_file(bytes) {
        Ok(vf) => vf,
        Err(e) => { return Err(e); },
    };
    let key = derive_key(master_pass, &vf.salt);
    match decrypt(&vf, &key) {
        Ok(payload) => Ok(OpenedVault { salt: vf.salt, key, payload }),
        Err(e) => Err(e),
    }
}

} // verus!
