# Statelock

A terminal password vault: AES-256-GCM on every field, Argon2id for the
master key, HKDF-SHA256 for a separate key per entry, and a small binary vault
format (`"SL01"`, vault salt, nonce, ciphertext).

The library under `src/` is written in Verus. Its own functions carry
contracts that Verus proves. The calls into other code — AES-256-GCM, HKDF,
Argon2id and the random source of the cryptography crates, `zeroize`, and a
few std string functions (`push`, `pop`, `to_lowercase`, `from_utf8`) — go
through small wrappers marked `#[verifier::external_body]`, each with a doc
comment saying what its contract claims: those contracts are assumed, not
proved, and the encryption primitives are named by uninterpreted spec
functions rather than defined.

* `crypto` — key derivation, per-entry encryption and the password generator.
  Decrypting what `encrypt_entry` produced gives the entry back; every
  ciphertext is the plaintext's UTF-8 length plus the 16-byte tag.
* `enc` — entry encryption with an XOR-folded per-entry key or a
  password-derived key.
* `vault` — the file format: framing, header checks, outer encryption.
  A vault sealed under the key derived from a password reopens with that
  password to the same salt, key and payload.
* `cache` — the unlocked session; what is read at an index is the decryption
  of the entry stored there, and reads after add, update and delete are proved.
* `app` — the key-driven state machine of the interface; every transition is
  specified, and work it cannot do itself (file access, clipboard) is handed
  back to the caller as an `Effect`. A change whose save fails is undone, so
  the session keeps what the file holds, and the states the app settles in
  between keys keep the selection within the entries.
* `screen` — the text each screen shows.
* `text`, `error`, `entry`, `clipboard` — shared helpers and types.

`app/` is the terminal program around the library: the event loop (ratatui and
crossterm), the vault file on disk (JSON payload through serde), the system
clipboard, and the default data directory. `tests/` exercises the library.
