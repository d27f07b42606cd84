//! Statelock — a local, encrypted password vault.
//!
//! * [`entry`] — the plaintext credential model.
//! * [`crypto`] — Argon2id key derivation, HKDF-SHA256 per-entry keys,
//!   AES-256-GCM field encryption and the password generator.
//! * [`enc`] — password-keyed entry encryption with an XOR-folded entry key.
//! * [`vault`] — the vault file format (magic, salt, nonce, ciphertext).
//! * [`cache`] — the in-memory session: derived key, encrypted entries, and a
//!   lazily filled plaintext cache.
//! * [`app`] — the key-driven state machine of the user interface.
//! * [`screen`] — the text each terminal screen shows.
//! * [`clipboard`] — the clipboard abstraction used by the interface.
//! * [`text`] — string helpers the other modules share.
//! * [`error`] — the unified error type.

pub mod app;
pub mod cache;
pub mod clipboard;
pub mod crypto;
pub mod enc;
pub mod entry;
pub mod error;
pub mod screen;
pub mod text;
pub mod vault;
