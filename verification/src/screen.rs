//! The text the terminal screens show, as a function of the app's state.
//!
//! Rendering (layout, colours, widgets) is the terminal front end's business;
//! what each screen says is decided here.

use vstd::prelude::*;
use vstd::utf8::*;

use crate::app::{InputMode, Key};
use crate::text::{decimal, push_char, spec_decimal};

verus! {

/// Key hints on the entry list.
pub const HELP: &'static str =
    "  ↑↓ navigate   enter view   a add   d delete   / search   esc quit";

/// Key hints while viewing an entry.
pub const HELP_VIEW: &'static str =
    "  ↑↓ navigate   → edit   space toggle   c copy pw   u copy user   esc back";

/// The bullet that hides secret characters.
pub open spec fn bullet() -> char {
    '•'
}

/// `n` bullets.
pub open spec fn bullets(n: nat) -> Seq<char> {
    Seq::new(n, |i: int| bullet())
}

fn push_bullets(s: &mut String, n: usize)
    ensures
        final(s)@ == old(s)@ + bullets(n as nat),
{
    for i in 0..n
        invariant
            s@ == old(s)@ + bullets(i as nat),
    {
        push_char(s, '•');
        assert(s@ =~= old(s)@ + bullets((i + 1) as nat));
    }
}

/// The key a typed character stands for: Space for an unmodified space,
/// `Ctrl('g')` for Ctrl+G (either case), nothing for other Ctrl
/// combinations, the character itself otherwise.
pub open spec fn spec_key_from_char(c: char, ctrl: bool) -> Option<Key> {
    if c == ' ' && !ctrl {
        Some(Key::Space)
    } else if (c == 'g' || c == 'G') && ctrl {
        Some(Key::Ctrl('g'))
    } else if ctrl {
        None
    } else {
        Some(Key::Char(c))
    }
}

/// Translate a typed character (with whether Ctrl was held) into a key.
pub fn key_from_char(c: char, ctrl: bool) -> (k: Option<Key>)
    ensures
        k == spec_key_from_char(c, ctrl),
{
    if c == ' ' && !ctrl {
        Some(Key::Space)
    } else if (c == 'g' || c == 'G') && ctrl {
        Some(Key::Ctrl('g'))
    } else if ctrl {
        None
    } else {
        Some(Key::Char(c))
    }
}

/// The master-password field: one bullet per typed character.
pub fn master_password_stars(master_pass: &str) -> (s: String)
    ensures
        s@ == bullets(master_pass@.len()),
{
    let mut s = String::new();
    push_bullets(&mut s, master_pass.unicode_len());
    s
}

/// A password as shown: in clear after two spaces when `show`, otherwise one
/// bullet per byte of its UTF-8 encoding.
pub fn password_text(show: bool, password: &str) -> (s: String)
    ensures
        s@ == "  "@ + if show {
            password@
        } else {
            bullets(password.len() as nat)
        },
{
    let mut s = String::from_str("  ");
    if show {
        s.append(password);
    } else {
        push_bullets(&mut s, password.len());
    }
    s
}

/// The title of the password box on the entry screen.
pub fn password_title(show: bool) -> (t: &'static str)
    ensures
        t@ == if show {
            "Password  [space] hide  [c] copy"@
        } else {
            "Password  [space] reveal  [c] copy"@
        },
{
    if show {
        "Password  [space] hide  [c] copy"
    } else {
        "Password  [space] reveal  [c] copy"
    }
}

/// The label of the password box on the Add/Edit forms.
pub fn form_password_label(focus: InputMode, show: bool) -> (t: &'static str)
    ensures
        t@ == if focus == InputMode::Password {
            if show {
                "Password ◀  [space] hide  [ctrl+g] generate"@
            } else {
                "Password ◀  [space] reveal  [ctrl+g] generate"@
            }
        } else {
            "Password  [ctrl+g] generate"@
        },
{
    if focus == InputMode::Password {
        if show {
            "Password ◀  [space] hide  [ctrl+g] generate"
        } else {
            "Password ◀  [space] reveal  [ctrl+g] generate"
        }
    } else {
        "Password  [ctrl+g] generate"
    }
}

/// The hint under the master-password field.
pub fn locked_hint(vault_found: bool) -> (t: &'static str)
    ensures
        t@ == if vault_found {
            "vault.sl found — enter password to unlock"@
        } else {
            "no vault found — enter password to create one"@
        },
{
    if vault_found {
        "vault.sl found — enter password to unlock"
    } else {
        "no vault found — enter password to create one"
    }
}

/// The details pane of the entry list.
pub fn browse_body(no_entries: bool, status: &str) -> (s: String)
    ensures
        s@ == if no_entries {
            "\n  No entries yet.\n\n  Press a to add your first entry."@
        } else {
            "\n  "@ + (if status@.len() == 0 {
                "select an entry"@
            } else {
                status@
            }) + "\n\n  "@ + HELP@
        },
{
    if no_entries {
        String::from_str("\n  No entries yet.\n\n  Press a to add your first entry.")
    } else {
        let shown = if status.is_empty() {
            "select an entry"
        } else {
            status
        };
        String::from_str("\n  ").concat(shown).concat("\n\n  ").concat(HELP)
    }
}

/// The hint line of the entry list.
pub fn search_hint(searching: bool, search: &str) -> (s: String)
    ensures
        s@ == if searching {
            "  search: "@ + search@ + "▌  (esc clears, enter done)"@
        } else {
            HELP@
        },
{
    if searching {
        String::from_str("  search: ").concat(search).concat("▌  (esc clears, enter done)")
    } else {
        String::from_str(HELP)
    }
}

/// The status box of the entry screen: the clipboard countdown while a copy
/// is pending, the status message otherwise.
pub fn clip_info(clip_remaining: Option<u64>, status: &str) -> (s: String)
    ensures
        s@ == match clip_remaining {
            Some(secs) => "  clipboard clears in "@ + spec_decimal(secs as nat) + "s"@,
            None => "  "@ + status@,
        },
{
    match clip_remaining {
        Some(secs) => String::from_str("  clipboard clears in ").concat(
            decimal(secs).as_str(),
        ).concat("s"),
        None => String::from_str("  ").concat(status),
    }
}

/// The status line of the Add/Edit forms.
pub fn form_status(status: &str) -> (s: String)
    ensures
        s@ == if status@.len() == 0 {
            "  tab switch   ctrl+g generate   space toggle   enter save   esc cancel"@
        } else {
            "  "@ + status@ + "  │  tab switch   ctrl+g generate   enter save   esc cancel"@
        },
{
    if status.is_empty() {
        String::from_str("  tab switch   ctrl+g generate   space toggle   enter save   esc cancel")
    } else {
        String::from_str("  ").concat(status).concat(
            "  │  tab switch   ctrl+g generate   enter save   esc cancel",
        )
    }
}

/// The question of the delete dialog.
pub fn confirm_text(name: &str) -> (s: String)
    ensures
        s@ == "Delete entry \""@ + name@ + "\"?\n\n  [y]es  /  anything else cancels"@,
{
    String::from_str("Delete entry \"").concat(name).concat(
        "\"?\n\n  [y]es  /  anything else cancels",
    )
}

/// The title of the entry list.
pub fn entries_title(count: usize) -> (s: String)
    ensures
        s@ == " Entries ("@ + spec_decimal(count as nat) + ") "@,
{
    String::from_str(" Entries (").concat(decimal(count as u64).as_str()).concat(") ")
}

} // verus!
