use statelock::app::{App, InputMode, Key};
use statelock::cache::SessionCache;
use statelock::crypto::{encrypt_entry, KEY_LEN, SALT_LEN};
use statelock::entry::Entry;
use statelock::screen::{
    browse_body, clip_info, confirm_text, entries_title, form_password_label, form_status,
    key_from_char, locked_hint, master_password_stars, password_text, password_title,
    search_hint, HELP,
};

fn unlocked(names: &[&str]) -> App {
    let key = [1u8; KEY_LEN];
    let encrypted = names
        .iter()
        .map(|n| encrypt_entry(&Entry::new(n, "p", ""), &key).unwrap())
        .collect();
    let mut app = App::new("t.sl".to_string());
    app.finish_unlock(Ok(SessionCache::from_parts(key, [2u8; SALT_LEN], "t.sl".to_string(), encrypted)));
    app
}

#[test]
fn key_mapping() {
    assert_eq!(key_from_char(' ', false), Some(Key::Space));
    assert_eq!(key_from_char('g', true), Some(Key::Ctrl('g')));
    assert_eq!(key_from_char('G', true), Some(Key::Ctrl('g')));
    assert_eq!(key_from_char('c', true), None);
    assert_eq!(key_from_char(' ', true), None);
    assert_eq!(key_from_char('x', false), Some(Key::Char('x')));
}

#[test]
fn secrets_are_masked() {
    assert_eq!(master_password_stars("héllo"), "•••••");
    assert_eq!(password_text(true, "pw"), "  pw");
    // One bullet per byte of the UTF-8 encoding.
    assert_eq!(password_text(false, "pé"), "  •••");
    assert_eq!(password_title(true), "Password  [space] hide  [c] copy");
    assert_eq!(password_title(false), "Password  [space] reveal  [c] copy");
}

#[test]
fn form_labels_and_status() {
    assert_eq!(
        form_password_label(InputMode::Password, true),
        "Password ◀  [space] hide  [ctrl+g] generate"
    );
    assert_eq!(
        form_password_label(InputMode::Password, false),
        "Password ◀  [space] reveal  [ctrl+g] generate"
    );
    assert_eq!(form_password_label(InputMode::Username, true), "Password  [ctrl+g] generate");
    assert_eq!(
        form_status(""),
        "  tab switch   ctrl+g generate   space toggle   enter save   esc cancel"
    );
    assert_eq!(
        form_status("oops"),
        "  oops  │  tab switch   ctrl+g generate   enter save   esc cancel"
    );
}

#[test]
fn list_texts() {
    assert_eq!(locked_hint(true), "vault.sl found — enter password to unlock");
    assert_eq!(locked_hint(false), "no vault found — enter password to create one");
    assert_eq!(
        browse_body(true, "x"),
        "\n  No entries yet.\n\n  Press a to add your first entry."
    );
    assert_eq!(browse_body(false, ""), format!("\n  select an entry\n\n  {HELP}"));
    assert_eq!(browse_body(false, "saved"), format!("\n  saved\n\n  {HELP}"));
    assert_eq!(search_hint(true, "gi"), "  search: gi▌  (esc clears, enter done)");
    assert_eq!(search_hint(false, "gi"), HELP);
    assert_eq!(clip_info(Some(12), "s"), "  clipboard clears in 12s");
    assert_eq!(clip_info(None, "status"), "  status");
    assert_eq!(confirm_text("bob"), "Delete entry \"bob\"?\n\n  [y]es  /  anything else cancels");
    assert_eq!(entries_title(3), " Entries (3) ");
}

#[test]
fn sidebar_names_and_position() {
    let mut app = unlocked(&["github", "gmail", "aws"]);
    assert_eq!(app.visible_names(), vec!["github", "gmail", "aws"]);
    assert_eq!(app.selected_position(), Some(0));
    app.handle_key(Key::Char('/'));
    app.handle_key(Key::Char('a'));
    assert_eq!(app.visible_names(), vec!["gmail", "aws"]);
    assert_eq!(app.selected_position(), Some(0));
    assert_eq!(app.selected, Some(1));
    assert_eq!(app.username_at(2), "aws");
    assert_eq!(app.username_at(9), "");
}
