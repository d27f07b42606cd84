use statelock::app::{App, Effect, InputMode, Key, Mode, CLIP_TIMEOUT_SECS};
use statelock::cache::SessionCache;
use statelock::crypto::{encrypt_entry, KEY_LEN, SALT_LEN};
use statelock::entry::Entry;
use statelock::error::Error;

fn session_with(names: &[&str]) -> SessionCache {
    let key = [5u8; KEY_LEN];
    let encrypted = names
        .iter()
        .map(|n| encrypt_entry(&Entry::new(n, &format!("{n}-pw"), "d"), &key).unwrap())
        .collect();
    SessionCache::from_parts(key, [6u8; SALT_LEN], "test.sl".to_string(), encrypted)
}

fn unlocked(names: &[&str]) -> App {
    let mut app = App::new("test.sl".to_string());
    app.master_pass = "pw".to_string();
    app.finish_unlock(Ok(session_with(names)));
    app
}

fn press(app: &mut App, keys: &[Key]) {
    for k in keys {
        let eff = app.handle_key(*k);
        assert!(matches!(eff, Effect::Nothing), "unexpected effect for {k:?}: {eff:?}");
    }
}

fn type_text(app: &mut App, s: &str) {
    for c in s.chars() {
        let k = if c == ' ' { Key::Space } else { Key::Char(c) };
        press(app, &[k]);
    }
}

#[test]
fn new_app_is_locked() {
    let app = App::new("v.sl".to_string());
    assert_eq!(app.mode, Mode::Locked);
    assert!(app.cache.is_none());
    assert_eq!(app.len(), 0);
    assert!(app.is_empty());
    assert_eq!(app.vault_path, "v.sl");
    let app = app.with_vault_path("other.sl");
    assert_eq!(app.vault_path, "other.sl");
}

#[test]
fn locked_typing_and_unlock_request() {
    let mut app = App::new("v.sl".to_string());
    assert!(matches!(app.handle_key(Key::Enter), Effect::Nothing));
    press(&mut app, &[Key::Char('p'), Key::Char('w'), Key::Char('x'), Key::Backspace]);
    assert_eq!(app.master_pass, "pw");
    assert!(matches!(app.handle_key(Key::Enter), Effect::OpenVault));
    assert_eq!(app.mode, Mode::Locked);
    press(&mut app, &[Key::Esc]);
    assert!(app.quit);
}

#[test]
fn unlock_success_statuses() {
    let app = unlocked(&["github", "gmail", "aws"]);
    assert_eq!(app.mode, Mode::Browse);
    assert_eq!(app.status, "3 entries loaded");
    assert_eq!(app.selected, Some(0));
    assert!(app.master_pass.is_empty());
    let app = unlocked(&["one"]);
    assert_eq!(app.status, "1 entry loaded");
    let app = unlocked(&[]);
    assert_eq!(app.status, "0 entries loaded");
    assert_eq!(app.selected, None);
}

#[test]
fn unlock_failure_stays_locked_and_wipes_password() {
    let mut app = App::new("v.sl".to_string());
    type_text(&mut app, "bad");
    app.finish_unlock(Err(Error::crypto("decryption failed — wrong password or corrupt file")));
    assert_eq!(app.mode, Mode::Locked);
    assert_eq!(
        app.status,
        "unlock failed: cryptographic error: decryption failed — wrong password or corrupt file"
    );
    assert!(app.master_pass.is_empty());
}

#[test]
fn create_reports_new_vault() {
    let mut app = App::new("v.sl".to_string());
    type_text(&mut app, "pw");
    app.finish_create(Ok(session_with(&[])));
    assert_eq!(app.mode, Mode::Browse);
    assert_eq!(app.status, "new vault created — press a to add entries");
    assert!(app.master_pass.is_empty());
    let mut app = App::new("v.sl".to_string());
    app.finish_create(Err(Error::Io("permission denied".to_string())));
    assert_eq!(app.status, "create failed: I/O error: permission denied");
}

#[test]
fn navigation_wraps_around() {
    let mut app = unlocked(&["a", "b", "c"]);
    press(&mut app, &[Key::Down]);
    assert_eq!(app.selected, Some(1));
    press(&mut app, &[Key::Down, Key::Down]);
    assert_eq!(app.selected, Some(0));
    press(&mut app, &[Key::Up]);
    assert_eq!(app.selected, Some(2));
    press(&mut app, &[Key::Up]);
    assert_eq!(app.selected, Some(1));
}

#[test]
fn search_filters_case_insensitively() {
    let mut app = unlocked(&["github", "gmail", "aws"]);
    press(&mut app, &[Key::Char('/')]);
    assert!(app.searching);
    type_text(&mut app, "GM");
    assert_eq!(app.search, "GM");
    assert_eq!(app.visible_indices(), vec![1]);
    assert_eq!(app.selected, Some(1));
    press(&mut app, &[Key::Backspace]);
    assert_eq!(app.visible_indices(), vec![0, 1]);
    assert_eq!(app.selected, Some(1));
    press(&mut app, &[Key::Enter]);
    assert!(!app.searching);
    assert_eq!(app.search, "G");
    press(&mut app, &[Key::Down]);
    assert_eq!(app.selected, Some(0));
    press(&mut app, &[Key::Char('/'), Key::Esc]);
    assert!(app.search.is_empty());
    assert_eq!(app.visible_indices(), vec![0, 1, 2]);
}

#[test]
fn search_lowercases_names_too() {
    let mut app = unlocked(&["GitHub", "GMAIL"]);
    press(&mut app, &[Key::Char('/')]);
    type_text(&mut app, "mai");
    assert_eq!(app.visible_indices(), vec![1]);
}

#[test]
fn search_with_no_match_clears_selection() {
    let mut app = unlocked(&["github", "gmail"]);
    press(&mut app, &[Key::Char('/')]);
    type_text(&mut app, "zzz");
    assert!(app.visible_indices().is_empty());
    assert_eq!(app.selected, None);
    press(&mut app, &[Key::Esc]);
    assert_eq!(app.selected, Some(0));
}

#[test]
fn view_copy_and_clipboard_countdown() {
    let mut app = unlocked(&["alice", "bob"]);
    press(&mut app, &[Key::Down, Key::Enter]);
    assert_eq!(app.mode, Mode::View);
    assert_eq!(app.entry, Some(Entry::new("bob", "bob-pw", "d")));
    assert!(!app.show_password);
    press(&mut app, &[Key::Space]);
    assert!(app.show_password);
    match app.handle_key(Key::Char('c')) {
        Effect::Copy(t) => assert_eq!(t, "bob-pw"),
        other => panic!("expected a copy, got {other:?}"),
    }
    match app.handle_key(Key::Char('U')) {
        Effect::Copy(t) => assert_eq!(t, "bob"),
        other => panic!("expected a copy, got {other:?}"),
    }
    app.finish_copy(true);
    assert_eq!(app.status, "copied — clears in 30s");
    assert_eq!(app.clip_remaining, Some(CLIP_TIMEOUT_SECS));
    assert!(!app.maybe_clear_clipboard(Some(12)));
    assert_eq!(app.clip_remaining, Some(18));
    assert!(app.maybe_clear_clipboard(Some(30)));
    assert_eq!(app.clip_remaining, None);
    assert_eq!(app.status, "clipboard cleared");
    assert!(!app.maybe_clear_clipboard(None));
    app.finish_copy(false);
    assert_eq!(app.status, "clipboard unavailable");
}

#[test]
fn view_navigation_refreshes_entry_and_escape_returns() {
    let mut app = unlocked(&["alice", "bob"]);
    press(&mut app, &[Key::Enter, Key::Space, Key::Down]);
    assert_eq!(app.entry, Some(Entry::new("bob", "bob-pw", "d")));
    assert!(!app.show_password);
    press(&mut app, &[Key::Esc]);
    assert_eq!(app.mode, Mode::Browse);
    assert!(app.entry.is_none());
}

#[test]
fn add_entry_flow() {
    let mut app = unlocked(&["a", "b", "c"]);
    press(&mut app, &[Key::Char('a')]);
    assert_eq!(app.mode, Mode::Add);
    assert_eq!(app.focus, InputMode::Username);
    type_text(&mut app, "new user");
    press(&mut app, &[Key::Tab]);
    assert_eq!(app.focus, InputMode::Password);
    type_text(&mut app, "pw");
    press(&mut app, &[Key::Space]);
    assert!(app.show_password);
    press(&mut app, &[Key::Tab]);
    type_text(&mut app, "notes");
    assert_eq!(app.username, "new user");
    assert_eq!(app.password, "pw");
    assert_eq!(app.description, "notes");
    assert!(matches!(app.handle_key(Key::Enter), Effect::Persist));
    assert!(app.has_pending_write());
    app.finish_persist(Ok(()));
    assert!(!app.has_pending_write());
    assert_eq!(app.mode, Mode::Browse);
    assert_eq!(app.status, "saved — 4 entries");
    assert_eq!(app.selected, Some(3));
    assert!(app.username.is_empty() && app.password.is_empty() && app.description.is_empty());
    press(&mut app, &[Key::Enter]);
    assert_eq!(app.entry, Some(Entry::new("new user", "pw", "notes")));
}

#[test]
fn add_requires_username() {
    let mut app = unlocked(&[]);
    press(&mut app, &[Key::Char('A'), Key::Tab]);
    type_text(&mut app, "pw");
    press(&mut app, &[Key::Enter]);
    assert_eq!(app.status, "username cannot be empty");
    assert_eq!(app.mode, Mode::Add);
    assert_eq!(app.len(), 0);
}

#[test]
fn add_persist_failure_keeps_form() {
    let mut app = unlocked(&[]);
    press(&mut app, &[Key::Char('a')]);
    type_text(&mut app, "u");
    assert!(matches!(app.handle_key(Key::Enter), Effect::Persist));
    app.finish_persist(Err(Error::Io("disk full".to_string())));
    assert_eq!(app.status, "save error: I/O error: disk full");
    assert_eq!(app.mode, Mode::Add);
    assert_eq!(app.username, "u");
    assert!(!app.has_pending_write());
    assert_eq!(app.len(), 0);
}

#[test]
fn add_persist_failure_keeps_earlier_entries() {
    let mut app = unlocked(&["a", "b"]);
    press(&mut app, &[Key::Char('a')]);
    type_text(&mut app, "c");
    assert!(matches!(app.handle_key(Key::Enter), Effect::Persist));
    assert_eq!(app.len(), 3);
    app.finish_persist(Err(Error::Io("disk full".to_string())));
    assert_eq!(app.len(), 2);
    assert_eq!(
        app.cache.as_ref().unwrap().usernames(),
        &["a".to_string(), "b".to_string()]
    );
    assert_eq!(app.selected, Some(0));
}

#[test]
fn add_escape_returns_to_list() {
    let mut app = unlocked(&["a"]);
    press(&mut app, &[Key::Char('a'), Key::Esc]);
    assert_eq!(app.mode, Mode::Browse);
}

#[test]
fn generate_password_in_form() {
    let mut app = unlocked(&[]);
    press(&mut app, &[Key::Char('a'), Key::Ctrl('g')]);
    assert_eq!(app.password.chars().count(), 32);
    assert!(app.show_password);
    assert_eq!(app.status, "password generated — space to hide");
}

#[test]
fn tab_cycles_focus_and_space_types_outside_password() {
    let mut app = unlocked(&[]);
    press(&mut app, &[Key::Char('a'), Key::Tab, Key::Tab]);
    assert_eq!(app.focus, InputMode::Description);
    press(&mut app, &[Key::Space]);
    assert_eq!(app.description, " ");
    press(&mut app, &[Key::Tab]);
    assert_eq!(app.focus, InputMode::Username);
}

#[test]
fn edit_entry_flow() {
    let mut app = unlocked(&["alice", "bob"]);
    press(&mut app, &[Key::Enter, Key::Right]);
    assert_eq!(app.mode, Mode::Edit);
    assert_eq!(app.username, "alice");
    assert_eq!(app.password, "alice-pw");
    press(&mut app, &[Key::Backspace, Key::Backspace]);
    type_text(&mut app, "x");
    assert_eq!(app.username, "alix");
    assert!(matches!(app.handle_key(Key::Enter), Effect::Persist));
    app.finish_persist(Ok(()));
    assert_eq!(app.mode, Mode::View);
    assert_eq!(app.status, "entry updated");
    assert_eq!(app.entry, Some(Entry::new("alix", "alice-pw", "d")));
    assert_eq!(app.cache.as_ref().unwrap().usernames()[0], "alix");
}

#[test]
fn edit_cancel_restores_entry() {
    let mut app = unlocked(&["alice"]);
    press(&mut app, &[Key::Enter, Key::Right]);
    type_text(&mut app, "zzz");
    press(&mut app, &[Key::Esc]);
    assert_eq!(app.mode, Mode::View);
    assert_eq!(app.entry, Some(Entry::new("alice", "alice-pw", "d")));
}

#[test]
fn delete_cancel_and_confirm() {
    let mut app = unlocked(&["a", "b", "c"]);
    press(&mut app, &[Key::Down, Key::Char('d')]);
    assert_eq!(app.mode, Mode::ConfirmDelete(1));
    press(&mut app, &[Key::Char('n')]);
    assert_eq!(app.mode, Mode::Browse);
    assert_eq!(app.status, "delete cancelled");
    assert_eq!(app.len(), 3);
    press(&mut app, &[Key::Char('D')]);
    assert!(matches!(app.handle_key(Key::Char('y')), Effect::Persist));
    app.finish_persist(Ok(()));
    assert_eq!(app.status, "entry deleted");
    assert_eq!(app.mode, Mode::Browse);
    assert_eq!(app.len(), 2);
    assert_eq!(app.selected, Some(1));
    assert_eq!(
        app.cache.as_ref().unwrap().usernames(),
        &["a".to_string(), "c".to_string()]
    );
}

#[test]
fn delete_last_entry_clears_selection() {
    let mut app = unlocked(&["only"]);
    press(&mut app, &[Key::Char('d')]);
    assert!(matches!(app.handle_key(Key::Char('Y')), Effect::Persist));
    app.finish_persist(Ok(()));
    assert_eq!(app.status, "entry deleted");
    assert_eq!(app.selected, None);
    assert!(app.is_empty());
}

#[test]
fn delete_failure_restores_entry() {
    let mut app = unlocked(&["a", "only"]);
    press(&mut app, &[Key::Down, Key::Char('d')]);
    assert!(matches!(app.handle_key(Key::Char('Y')), Effect::Persist));
    assert_eq!(app.len(), 1);
    app.finish_persist(Err(Error::Io("read-only".to_string())));
    assert_eq!(app.status, "delete failed: I/O error: read-only");
    assert_eq!(app.mode, Mode::Browse);
    assert_eq!(app.len(), 2);
    assert_eq!(app.selected, Some(1));
    assert_eq!(
        app.cache.as_ref().unwrap().usernames(),
        &["a".to_string(), "only".to_string()]
    );
    press(&mut app, &[Key::Enter]);
    assert_eq!(app.entry, Some(Entry::new("only", "only-pw", "d")));
}

#[test]
fn edit_failure_restores_entry() {
    let mut app = unlocked(&["alice", "bob"]);
    press(&mut app, &[Key::Enter, Key::Right]);
    type_text(&mut app, "x");
    assert!(matches!(app.handle_key(Key::Enter), Effect::Persist));
    assert_eq!(app.cache.as_ref().unwrap().usernames()[0], "alicex");
    app.finish_persist(Err(Error::Io("disk full".to_string())));
    assert_eq!(app.status, "save error: I/O error: disk full");
    assert_eq!(app.mode, Mode::Edit);
    assert_eq!(app.username, "alicex");
    assert_eq!(app.cache.as_ref().unwrap().usernames()[0], "alice");
    press(&mut app, &[Key::Esc]);
    assert_eq!(app.entry, Some(Entry::new("alice", "alice-pw", "d")));
}

#[test]
fn view_space_twice_restores_display() {
    let mut app = unlocked(&["a"]);
    press(&mut app, &[Key::Enter]);
    assert_eq!(app.mode, Mode::View);
    assert!(!app.show_password);
    press(&mut app, &[Key::Space]);
    assert!(app.show_password);
    assert_eq!(app.mode, Mode::View);
    press(&mut app, &[Key::Space]);
    assert!(!app.show_password);
    assert_eq!(app.entry, Some(Entry::new("a", "a-pw", "d")));
}

#[test]
fn typing_then_backspace_restores_field() {
    let mut app = unlocked(&["a"]);
    press(&mut app, &[Key::Char('a')]);
    type_text(&mut app, "ab");
    press(&mut app, &[Key::Tab]);
    type_text(&mut app, "pq");
    press(&mut app, &[Key::Char('z'), Key::Backspace]);
    assert_eq!(app.username, "ab");
    assert_eq!(app.password, "pq");
    assert_eq!(app.description, "");
}

#[test]
fn empty_search_lists_every_entry_and_typing_narrows() {
    let mut app = unlocked(&["Alpha", "beta", "ALPS", "gamma"]);
    assert_eq!(app.visible_indices(), vec![0, 1, 2, 3]);
    press(&mut app, &[Key::Char('/'), Key::Char('A')]);
    assert_eq!(app.visible_indices(), vec![0, 1, 2, 3]);
    press(&mut app, &[Key::Char('l')]);
    assert_eq!(app.visible_indices(), vec![0, 2]);
    press(&mut app, &[Key::Char('P'), Key::Char('h')]);
    assert_eq!(app.visible_indices(), vec![0]);
    press(&mut app, &[Key::Esc]);
    assert_eq!(app.visible_indices(), vec![0, 1, 2, 3]);
}

#[test]
fn delete_out_of_range_reports_failure() {
    let mut app = unlocked(&["a"]);
    app.mode = Mode::ConfirmDelete(5);
    press(&mut app, &[Key::Char('y')]);
    assert_eq!(app.status, "delete failed: entry index out of range");
    assert_eq!(app.mode, Mode::Browse);
    assert_eq!(app.len(), 1);
}

#[test]
fn browse_escape_quits() {
    let mut app = unlocked(&["a"]);
    press(&mut app, &[Key::Esc]);
    assert!(app.quit);
}

#[test]
fn wipe_secrets_clears_buffers_and_viewed_entry() {
    let mut app = unlocked(&["alice"]);
    press(&mut app, &[Key::Enter, Key::Right]);
    assert!(app.entry.is_some());
    app.master_pass = "left over".to_string();
    app.wipe_secrets();
    assert!(app.master_pass.is_empty());
    assert!(app.username.is_empty() && app.password.is_empty() && app.description.is_empty());
    assert!(app.entry.is_none());
    assert!(app.cache.as_ref().unwrap().usernames().is_empty());
    assert_eq!(app.len(), 1);
}

#[test]
fn a_run_of_keys_keeps_the_selection_within_the_entries() {
    let mut app = App::new("v.sl".to_string());
    press(&mut app, &[Key::Char('p')]);
    assert!(matches!(app.handle_key(Key::Enter), Effect::OpenVault));
    app.finish_unlock(Ok(session_with(&["a", "b", "c"])));
    let keys = [
        Key::Up, Key::Char('d'), Key::Char('y'), Key::Down, Key::Char('/'), Key::Char('b'),
        Key::Enter, Key::Char('d'), Key::Char('y'), Key::Char('a'), Key::Char('x'), Key::Enter,
        Key::Char('d'), Key::Char('y'), Key::Down, Key::Enter, Key::Esc,
    ];
    for (n, k) in keys.iter().enumerate() {
        match app.handle_key(*k) {
            Effect::Persist => {
                let outcome = if n % 2 == 0 { Ok(()) } else { Err(Error::Io("full".to_string())) };
                app.finish_persist(outcome);
            }
            _ => {}
        }
        assert!(!app.has_pending_write());
        assert_ne!(app.mode, Mode::Locked);
        if let Some(s) = app.selected {
            assert!(s < app.len());
        }
        if let Mode::ConfirmDelete(i) = app.mode {
            assert!(i < app.len());
        }
    }
}
