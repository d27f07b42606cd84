use statelock::cache::SessionCache;
use statelock::crypto::{encrypt_entry, KEY_LEN, SALT_LEN};
use statelock::entry::Entry;
use statelock::vault::{decrypt, parse_vault_file};

fn session_with(names: &[&str]) -> SessionCache {
    let key = [5u8; KEY_LEN];
    let encrypted = names
        .iter()
        .map(|n| encrypt_entry(&Entry::new(n, "pw", "d"), &key).unwrap())
        .collect();
    SessionCache::from_parts(key, [6u8; SALT_LEN], "vault.sl".to_string(), encrypted)
}

#[test]
fn usernames_are_decrypted_on_load() {
    let c = session_with(&["github", "gmail", "aws"]);
    assert_eq!(c.len(), 3);
    assert!(!c.is_empty());
    assert_eq!(c.usernames(), &["github".to_string(), "gmail".to_string(), "aws".to_string()]);
    assert_eq!(c.path(), "vault.sl");
}

#[test]
fn undecryptable_username_shows_error_marker() {
    let key = [5u8; KEY_LEN];
    let mut bad = encrypt_entry(&Entry::new("x", "y", "z"), &key).unwrap();
    bad.username[0] ^= 1;
    let c = SessionCache::from_parts(key, [0u8; SALT_LEN], String::new(), vec![bad]);
    assert_eq!(c.usernames(), &["‹error›".to_string()]);
}

#[test]
fn get_entry_decrypts_lazily_and_repeatably() {
    let mut c = session_with(&["a", "b"]);
    assert_eq!(c.get_entry(1), Some(Entry::new("b", "pw", "d")));
    assert_eq!(c.get_entry(1), Some(Entry::new("b", "pw", "d")));
    assert_eq!(c.get_entry(0), Some(Entry::new("a", "pw", "d")));
    assert_eq!(c.get_entry(2), None);
}

#[test]
fn add_then_get_reads_back() {
    let mut c = session_with(&["a"]);
    let e = Entry::new("new", "pass", "desc");
    c.add_entry(&e).unwrap();
    assert_eq!(c.len(), 2);
    assert_eq!(c.get_entry(1), Some(e));
    assert_eq!(c.get_entry(0), Some(Entry::new("a", "pw", "d")));
    assert_eq!(c.usernames()[1], "new");
}

#[test]
fn add_before_any_read_keeps_indices_aligned() {
    let mut c = session_with(&["one", "two", "three"]);
    c.add_entry(&Entry::new("four", "p", "")).unwrap();
    assert_eq!(c.get_entry(0), Some(Entry::new("one", "pw", "d")));
    assert_eq!(c.get_entry(3), Some(Entry::new("four", "p", "")));
}

#[test]
fn update_replaces_and_rejects_bad_index() {
    let mut c = session_with(&["a", "b"]);
    let e = Entry::new("b2", "pw2", "d2");
    c.update_entry(1, &e).unwrap();
    assert_eq!(c.get_entry(1), Some(e));
    assert_eq!(c.usernames()[1], "b2");
    match c.update_entry(2, &Entry::new("z", "", "")) {
        Err(err) => assert_eq!(err.message(), "entry index out of range"),
        Ok(()) => panic!("updated past the end"),
    }
    assert_eq!(c.len(), 2);
}

#[test]
fn delete_before_any_read_removes_entry() {
    let mut c = session_with(&["a", "b", "c"]);
    c.delete_entry(0).unwrap();
    assert_eq!(c.len(), 2);
    assert_eq!(c.usernames(), &["b".to_string(), "c".to_string()]);
    assert_eq!(c.get_entry(0), Some(Entry::new("b", "pw", "d")));
    assert!(c.delete_entry(2).is_err());
    assert_eq!(c.len(), 2);
}

#[test]
fn seal_persists_under_the_session_key() {
    let c = session_with(&[]);
    assert!(c.is_empty());
    let bytes = c.seal(b"[]").unwrap();
    let vf = parse_vault_file(&bytes).unwrap();
    assert_eq!(vf.salt, [6u8; SALT_LEN]);
    assert_eq!(decrypt(&vf, &[5u8; KEY_LEN]).unwrap(), b"[]".to_vec());
}

#[test]
fn entries_accessor_matches_session() {
    let c = session_with(&["a", "b"]);
    assert_eq!(c.entries().len(), 2);
}

#[test]
fn create_starts_empty() {
    let c = SessionCache::create("pw", "somewhere.sl");
    assert!(c.is_empty());
    assert_eq!(c.path(), "somewhere.sl");
}

#[test]
fn snapshot_then_restore_undoes_changes() {
    let mut cache = session_with(&["a", "b", "c"]);
    let before = cache.snapshot();
    cache.delete_entry(0).unwrap();
    cache.update_entry(0, &Entry::new("x", "y", "z")).unwrap();
    cache.add_entry(&Entry::new("n", "p", "d")).unwrap();
    assert_eq!(cache.usernames(), &["x".to_string(), "c".to_string(), "n".to_string()]);
    cache.restore(before);
    assert_eq!(cache.len(), 3);
    assert_eq!(cache.usernames(), &["a".to_string(), "b".to_string(), "c".to_string()]);
    assert_eq!(cache.get_entry(1), Some(Entry::new("b", "pw", "d")));
}

#[test]
fn sealed_session_is_header_payload_and_tag() {
    let cache = session_with(&["a"]);
    let payload = b"some serialized entries".to_vec();
    let bytes = cache.seal(&payload).unwrap();
    assert_eq!(bytes.len(), 48 + payload.len() + 16);
}

#[test]
fn wipe_drops_names_and_cached_entries_but_keeps_ciphertexts() {
    let mut cache = session_with(&["a", "b"]);
    assert!(cache.get_entry(0).is_some());
    let before = cache.snapshot();
    cache.wipe();
    assert!(cache.usernames().is_empty());
    assert_eq!(cache.len(), 2);
    assert_eq!(cache.entries()[1].username, before[1].username);
}
