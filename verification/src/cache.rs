//! In-memory session state — built once on unlock, alive until the app exits.
//!
//! # Lazy entry cache
//!
//! The usernames are decrypted eagerly on load (one pass that decrypts only
//! the username field; passwords are never read). Full [`Entry`] values are
//! decrypted lazily the first time the user opens or moves to that entry, and
//! later views are copies of the cached value. Every cached value is the
//! decryption of the entry at its index, so stale data is never shown.
//!
//! Persisting the entries is the caller's business: it serializes
//! [`SessionCache::entries`], seals the bytes with [`SessionCache::seal`] and
//! writes them to [`SessionCache::path`].

use vstd::prelude::*;
use vstd::utf8::*;

use crate::crypto::{
    decrypt_entry, decrypt_username, derive_key, encrypt_entry, encrypts, entry_encryptable, wipe_key,
    generate_salt, spec_decrypt_entry, spec_decrypt_username, spec_derive_key,
    EncryptedEntry, EncryptedEntryView, AES_GCM_MAX_PLAINTEXT, KEY_LEN, SALT_LEN,
};
use crate::entry::{Entry, EntryView};
use crate::error::{Error, ErrorSpec};
use crate::text::wipe_string;
use crate::vault::{seal_vault, seals_vault, spec_decrypt_vault, spec_parse_vault_file};

verus! {

/// The live session: derived key, encrypted entries, and the lazy plaintext
/// cache.
pub struct SessionCache {
    /// AES-256 vault key derived from the master password and vault salt.
    key: [u8; KEY_LEN],
    /// Salt used for the outer vault layer.
    vault_salt: [u8; SALT_LEN],
    /// Where the vault is persisted.
    path: String,
    /// Encrypted entries — the source of truth.
    encrypted: Vec<EncryptedEntry>,
    /// The username of every entry, for the sidebar list.
    usernames: Vec<String>,
    /// Lazily filled full-entry cache. `None` means "not decrypted yet".
    entry_cache: Vec<Option<Entry>>,
}

/// The mathematical value of a [`SessionCache`]: the key, the salt, the path
/// and the encrypted entries. The usernames and the plaintext cache are
/// functions of these.
pub struct SessionView {
    pub key: Seq<u8>,
    pub vault_salt: Seq<u8>,
    pub path: Seq<char>,
    pub entries: Seq<EncryptedEntryView>,
}

impl View for SessionCache {
    type V = SessionView;

    closed spec fn view(&self) -> SessionView {
        SessionView {
            key: self.key@,
            vault_salt: self.vault_salt@,
            path: self.path@,
            entries: self.encrypted@.map_values(|e: EncryptedEntry| e@),
        }
    }
}

/// The sidebar name of an entry: its decrypted username, or "‹error›" when
/// that field cannot be decrypted.
pub open spec fn display_username(enc: EncryptedEntryView, key: Seq<u8>) -> Seq<char> {
    match spec_decrypt_username(enc, key) {
        Ok(u) => u,
        Err(_) => "‹error›"@,
    }
}

/// The sidebar names of every entry of a session.
pub open spec fn spec_usernames(s: SessionView) -> Seq<Seq<char>> {
    s.entries.map_values(|e: EncryptedEntryView| display_username(e, s.key))
}

/// What reading the entry at index `i` gives: its decryption, or `None` when
/// the index is out of range or the entry cannot be decrypted.
pub open spec fn spec_get_entry(s: SessionView, i: int) -> Option<EntryView> {
    if 0 <= i < s.entries.len() {
        match spec_decrypt_entry(s.entries[i], s.key) {
            Ok(e) => Some(e),
            Err(_) => None,
        }
    } else {
        None
    }
}

/// Whether `new` is `old` with one more entry, an encryption of `e`, at the end.
pub open spec fn entry_added(old: SessionView, new: SessionView, e: EntryView) -> bool {
    &&& new.key == old.key
    &&& new.vault_salt == old.vault_salt
    &&& new.path == old.path
    &&& new.entries.len() == old.entries.len() + 1
    &&& new.entries.drop_last() == old.entries
    &&& encrypts(new.entries.last(), e, old.key)
    &&& spec_decrypt_entry(new.entries.last(), old.key) == Ok::<EntryView, ErrorSpec>(e)
    &&& spec_decrypt_username(new.entries.last(), old.key) == Ok::<Seq<char>, ErrorSpec>(
        e.username,
    )
}

/// Whether `new` is `old` with the entry at `i` replaced by an encryption of `e`.
pub open spec fn entry_replaced(old: SessionView, new: SessionView, i: int, e: EntryView) -> bool {
    &&& 0 <= i < old.entries.len()
    &&& new.key == old.key
    &&& new.vault_salt == old.vault_salt
    &&& new.path == old.path
    &&& new.entries.len() == old.entries.len()
    &&& new.entries == old.entries.update(i, new.entries[i])
    &&& encrypts(new.entries[i], e, old.key)
    &&& spec_decrypt_entry(new.entries[i], old.key) == Ok::<EntryView, ErrorSpec>(e)
    &&& spec_decrypt_username(new.entries[i], old.key) == Ok::<Seq<char>, ErrorSpec>(e.username)
}

/// Whether `new` is `old` without the entry at `i`.
pub open spec fn entry_removed(old: SessionView, new: SessionView, i: int) -> bool {
    &&& 0 <= i < old.entries.len()
    &&& new == SessionView { entries: old.entries.remove(i), ..old }
}

/// After an entry is added, reading the last index gives it back, and every
/// earlier index reads as before; the new sidebar name is its username.
pub proof fn lemma_read_after_add(old: SessionView, new: SessionView, e: EntryView)
    requires
        entry_added(old, new, e),
    ensures
        spec_get_entry(new, old.entries.len() as int) == Some(e),
        forall|j: int| 0 <= j < old.entries.len() ==> spec_get_entry(new, j) == spec_get_entry(old, j),
        spec_usernames(new) == spec_usernames(old).push(e.username),
{
    assert forall|j: int| 0 <= j < old.entries.len() implies new.entries[j] == old.entries[j] by {
        assert(new.entries.drop_last()[j] == new.entries[j]);
    }
    assert(spec_usernames(new) =~= spec_usernames(old).push(e.username));
}

/// After the entry at `i` is replaced, reading `i` gives the new entry and
/// every other index reads as before.
pub proof fn lemma_read_after_update(old: SessionView, new: SessionView, i: int, e: EntryView)
    requires
        entry_replaced(old, new, i, e),
    ensures
        spec_get_entry(new, i) == Some(e),
        forall|j: int| 0 <= j < old.entries.len() && j != i ==> spec_get_entry(new, j)
            == spec_get_entry(old, j),
        spec_usernames(new) == spec_usernames(old).update(i, e.username),
{
    assert(spec_usernames(new) =~= spec_usernames(old).update(i, e.username));
}

/// After the entry at `i` is removed, the later entries move down by one.
pub proof fn lemma_read_after_delete(old: SessionView, new: SessionView, i: int)
    requires
        entry_removed(old, new, i),
    ensures
        new.entries.len() == old.entries.len() - 1,
        forall|j: int| 0 <= j < i ==> spec_get_entry(new, j) == spec_get_entry(old, j),
        forall|j: int| i <= j < new.entries.len() ==> spec_get_entry(new, j) == spec_get_entry(
            old,
            j + 1,
        ),
        spec_usernames(new) == spec_usernames(old).remove(i),
{
    assert(spec_usernames(new) =~= spec_usernames(old).remove(i));
}

impl SessionCache {
    /// The internal consistency of a session: one username and one cache slot
    /// per entry, every username is the entry's display name, and every cached
    /// entry is the decryption of the entry at its index.
    pub closed spec fn wf(&self) -> bool {
        &&& self.usernames@.len() == self.encrypted@.len()
        &&& self.entry_cache@.len() == self.encrypted@.len()
        &&& forall|i: int|
            0 <= i < self.encrypted@.len() ==> (#[trigger] self.usernames@[i])@
                == display_username(self.encrypted@[i]@, self.key@)
        &&& forall|i: int|
            0 <= i < self.encrypted@.len() ==> (#[trigger] self.entry_cache@[i] matches Some(e)
                ==> spec_decrypt_entry(self.encrypted@[i]@, self.key@) == Ok::<
                EntryView,
                ErrorSpec,
            >(e@))
    }

    proof fn lemma_view_entries(&self)
        ensures
            self@.entries.len() == self.encrypted@.len(),
            forall|i: int| 0 <= i < self.encrypted@.len() ==> #[trigger] self@.entries[i] == self.encrypted@[i]@,
    {
    }

    /// Build a session from its parts, decrypting every username.
    pub fn from_parts(
        key: [u8; KEY_LEN],
        vault_salt: [u8; SALT_LEN],
        path: String,
        encrypted: Vec<EncryptedEntry>,
    ) -> (cache: Self)
        ensures
            cache.wf(),
            cache@.key == key@,
            cache@.vault_salt == vault_salt@,
            cache@.path == path@,
            cache@.entries == encrypted@.map_values(|e: EncryptedEntry| e@),
    {
        let mut cache = SessionCache {
            key,
            vault_salt,
            path,
            encrypted,
            usernames: Vec::new(),
            entry_cache: Vec::new(),
        };
        cache.rebuild_usernames();
        cache
    }

    /// Re-derive the sidebar usernames and empty the plaintext cache.
    /// Decrypts only the username field of each entry.
    fn rebuild_usernames(&mut self)
        ensures
            final(self).wf(),
            final(self)@ == old(self)@,
    {
        let n = self.encrypted.len();
        let mut usernames: Vec<String> = Vec::new();
        let mut entry_cache: Vec<Option<Entry>> = Vec::new();
        for i in 0..n
            invariant
                n == self.encrypted@.len(),
                usernames@.len() == i,
                entry_cache@.len() == i,
                forall|j: int| 0 <= j < i ==> (#[trigger] usernames@[j])@ == display_username(
                    self.encrypted@[j]@,
                    self.key@,
                ),
                forall|j: int| 0 <= j < i ==> (#[trigger] entry_cache@[j]) is None,
        {
            let name = match decrypt_username(&self.encrypted[i], &self.key) {
                Ok(u) => u,
                Err(_) => String::from_str("‹error›"),
            };
            usernames.push(name);
            entry_cache.push(None);
        }
        self.usernames = usernames;
        self.entry_cache = entry_cache;
    }

    /// Start a brand-new, empty session: a fresh random vault salt and the key
    /// derived from it with Argon2id (run exactly once). The caller persists
    /// it.
    pub fn create(master_pass: &str, path: &str) -> (cache: Self)
        requires
            encode_utf8(master_pass@).len() <= u32::MAX,
        ensures
            cache.wf(),
            cache@.entries.len() == 0,
            cache@.key == spec_derive_key(master_pass@, cache@.vault_salt),
            cache@.vault_salt.len() == SALT_LEN,
            cache@.path == path@,
    {
        let salt = generate_salt();
        let key = derive_key(master_pass, &salt);
        let cache = Self::from_parts(key, salt, path.to_owned(), Vec::new());
        assert(cache@.entries =~= Seq::<EncryptedEntryView>::empty());
        cache
    }

    // ── Lazy entry access ──────────────────────────────────────────────────

    /// The full decrypted [`Entry`] at index `i`, decrypted and cached on
    /// first access; later calls copy the cached value.
    pub fn get_entry(&mut self, i: usize) -> (r: Option<Entry>)
        requires
            old(self).wf(),
        ensures
            final(self).wf(),
            final(self)@ == old(self)@,
            r is Some <==> spec_get_entry(old(self)@, i as int) is Some,
            r matches Some(e) ==> spec_get_entry(old(self)@, i as int) == Some(e@),
    {
        proof {
            self.lemma_view_entries();
        }
        if i >= self.encrypted.len() {
            return None;
        }
        if self.entry_cache[i].is_none() {
            let decrypted = match decrypt_entry(&self.encrypted[i], &self.key) {
                Ok(e) => Some(e),
                Err(_) => None,
            };
            self.entry_cache.set(i, decrypted);
        }
        match &self.entry_cache[i] {
            Some(e) => Some(e.duplicate()),
            None => None,
        }
    }

    // ── Mutations ──────────────────────────────────────────────────────────

    /// Add a new entry, encrypted under the session key, at the end.
    pub fn add_entry(&mut self, entry: &Entry) -> (r: Result<(), Error>)
        requires
            old(self).wf(),
        ensures
            final(self).wf(),
            r is Ok <==> entry_encryptable(entry@),
            r is Ok ==> entry_added(old(self)@, final(self)@, entry@),
            r matches Err(e) ==> e@ == ErrorSpec::Crypto("AES-GCM encryption failed"@) && final(self)@ == old(self)@,
    {
        proof {
            self.lemma_view_entries();
        }
        let enc = match encrypt_entry(entry, &self.key) {
            Ok(enc) => enc,
            Err(e) => { return Err(e); },
        };
        self.encrypted.push(enc);
        self.entry_cache.push(Some(entry.duplicate()));
        self.usernames.push(entry.username.clone());
        proof {
            self.lemma_view_entries();
            assert(self@.entries.drop_last() =~= old(self)@.entries);
        }
        Ok(())
    }

    /// Replace the entry at index `i` with a fresh encryption of `entry`.
    pub fn update_entry(&mut self, i: usize, entry: &Entry) -> (r: Result<(), Error>)
        requires
            old(self).wf(),
        ensures
            final(self).wf(),
            r is Ok <==> entry_encryptable(entry@) && i < old(self)@.entries.len(),
            r is Ok ==> entry_replaced(old(self)@, final(self)@, i as int, entry@),
            r is Err ==> final(self)@ == old(self)@,
            r matches Err(e) ==> !entry_encryptable(entry@) ==> e@ == ErrorSpec::Crypto(
                "AES-GCM encryption failed"@,
            ),
            r matches Err(e) ==> entry_encryptable(entry@) ==> e@ == ErrorSpec::Invalid(
                "entry index out of range"@,
            ),
    {
        proof {
            self.lemma_view_entries();
        }
        let enc = match encrypt_entry(entry, &self.key) {
            Ok(enc) => enc,
            Err(e) => { return Err(e); },
        };
        if i >= self.encrypted.len() {
            return Err(Error::invalid("entry index out of range"));
        }
        self.encrypted.set(i, enc);
        self.entry_cache.set(i, Some(entry.duplicate()));
        self.usernames.set(i, entry.username.clone());
        proof {
            self.lemma_view_entries();
            assert(self@.entries =~= old(self)@.entries.update(i as int, self@.entries[i as int]));
        }
        Ok(())
    }

    /// Remove the entry at index `i`.
    pub fn delete_entry(&mut self, i: usize) -> (r: Result<(), Error>)
        requires
            old(self).wf(),
        ensures
            final(self).wf(),
            r is Ok <==> i < old(self)@.entries.len(),
            r is Ok ==> entry_removed(old(self)@, final(self)@, i as int),
            r matches Err(e) ==> e@ == ErrorSpec::Invalid("entry index out of range"@) && final(self)@ == old(self)@,
    {
        proof {
            self.lemma_view_entries();
        }
        if i >= self.encrypted.len() {
            return Err(Error::invalid("entry index out of range"));
        }
        self.encrypted.remove(i);
        self.entry_cache.remove(i);
        self.usernames.remove(i);
        proof {
            self.lemma_view_entries();
            assert(self@.entries =~= old(self)@.entries.remove(i as int));
        }
        Ok(())
    }

    /// A copy of the encrypted entries, in order: what [`SessionCache::restore`]
    /// puts back.
    pub fn snapshot(&self) -> (entries: Vec<EncryptedEntry>)
        ensures
            entries@.map_values(|e: EncryptedEntry| e@) == self@.entries,
    {
        let n = self.encrypted.len();
        let mut entries: Vec<EncryptedEntry> = Vec::new();
        for i in 0..n
            invariant
                n == self.encrypted@.len(),
                entries@.len() == i,
                forall|j: int| 0 <= j < i ==> (#[trigger] entries@[j])@ == self.encrypted@[j]@,
        {
            entries.push(self.encrypted[i].duplicate());
        }
        assert(entries@.map_values(|e: EncryptedEntry| e@) =~= self@.entries);
        entries
    }

    /// Put back encrypted entries taken earlier with
    /// [`SessionCache::snapshot`]: the key, salt and path stay, the sidebar
    /// names are decrypted again and the plaintext cache is emptied.
    pub fn restore(&mut self, entries: Vec<EncryptedEntry>)
        requires
            old(self).wf(),
        ensures
            final(self).wf(),
            final(self)@ == (SessionView {
                entries: entries@.map_values(|e: EncryptedEntry| e@),
                ..old(self)@
            }),
    {
        self.encrypted = entries;
        self.rebuild_usernames();
    }

    /// Whether the session's secrets have been overwritten: the key is all
    /// zero bytes and no sidebar name or decrypted entry is held.
    pub closed spec fn secrets_wiped(&self) -> bool {
        &&& self.key@ == Seq::new(KEY_LEN as nat, |i: int| 0u8)
        &&& self.usernames@.len() == 0
        &&& self.entry_cache@.len() == 0
    }

    /// Overwrite the secrets the session holds in memory — the key, the
    /// sidebar names and the cached entries — once it is no longer needed.
    /// The encrypted entries, the salt and the path stay.
    pub fn wipe(&mut self)
        ensures
            final(self).secrets_wiped(),
            final(self)@ == (SessionView {
                key: Seq::new(KEY_LEN as nat, |i: int| 0u8),
                ..old(self)@
            }),
    {
        wipe_key(&mut self.key);
        let mut names: Vec<String> = Vec::new();
        std::mem::swap(&mut names, &mut self.usernames);
        while names.len() > 0
            decreases names@.len(),
        {
            match names.pop() {
                Some(mut name) => wipe_string(&mut name),
                None => {},
            }
        }
        let mut cached: Vec<Option<Entry>> = Vec::new();
        std::mem::swap(&mut cached, &mut self.entry_cache);
        while cached.len() > 0
            decreases cached@.len(),
        {
            match cached.pop() {
                Some(Some(mut e)) => e.wipe(),
                _ => {},
            }
        }
    }

    // ── Accessors ──────────────────────────────────────────────────────────

    pub fn len(&self) -> (n: usize)
        requires
            self.wf(),
        ensures
            n == self@.entries.len(),
    {
        proof {
            self.lemma_view_entries();
        }
        self.encrypted.len()
    }

    pub fn is_empty(&self) -> (b: bool)
        requires
            self.wf(),
        ensures
            b == (self@.entries.len() == 0),
    {
        proof {
            self.lemma_view_entries();
        }
        self.encrypted.len() == 0
    }

    /// The sidebar names, one per entry.
    pub fn usernames(&self) -> (names: &[String])
        requires
            self.wf(),
        ensures
            names@.len() == self@.entries.len(),
            forall|i: int| 0 <= i < names@.len() ==> (#[trigger] names@[i])@ == spec_usernames(self@)[i],
    {
        proof {
            self.lemma_view_entries();
        }
        self.usernames.as_slice()
    }

    /// The encrypted entries, in order.
    pub fn entries(&self) -> (entries: &[EncryptedEntry])
        ensures
            entries@.map_values(|e: EncryptedEntry| e@) == self@.entries,
    {
        self.encrypted.as_slice()
    }

    /// Where the vault is persisted.
    pub fn path(&self) -> (p: &str)
        ensures
            p@ == self@.path,
    {
        self.path.as_str()
    }

    /// Encrypt a serialized payload under the session key with a fresh
    /// nonce and frame it as a vault file with the session's salt.
    pub fn seal(&self, payload: &[u8]) -> (r: Result<Vec<u8>, Error>)
        ensures
            r is Ok <==> payload@.len() <= AES_GCM_MAX_PLAINTEXT,
            r matches Ok(bytes) ==> seals_vault(bytes@, payload@, self@.key, self@.vault_salt),
            r matches Ok(bytes) ==> (spec_parse_vault_file(bytes@) matches Ok(vf) && vf.salt
                == self@.vault_salt && spec_decrypt_vault(vf, self@.key) == Ok::<
                Seq<u8>,
                ErrorSpec,
            >(payload@)),
            r matches Err(e) ==> e@ == ErrorSpec::Crypto("vault encryption failed"@),
    {
        seal_vault(payload, &self.key, &self.vault_salt)
    }
}

} // verus!
