//! The user interface's state machine, independent of any terminal.
//!
//! Feed it [`Key`]s with [`App::handle_key`] and it moves between screens.
//! Work it cannot do itself comes back as an [`Effect`] for the caller to
//! perform — opening the vault file, persisting the entries, copying to the
//! clipboard — and the outcome is handed back with [`App::finish_unlock`],
//! [`App::finish_create`], [`App::finish_persist`] or [`App::finish_copy`].
//! The clipboard countdown is driven by [`App::maybe_clear_clipboard`] with
//! the seconds elapsed since the last copy.

use vstd::prelude::*;
use vstd::utf8::*;

use crate::cache::{
    entry_added, entry_removed, entry_replaced, lemma_read_after_add, lemma_read_after_update,
    spec_get_entry, spec_usernames, SessionCache, SessionView,
};
use crate::crypto::{
    entry_encryptable, generate_password, in_password_alphabet, EncryptedEntry,
    EncryptedEntryView, KEY_LEN, PASSWORD_LEN,
};
use crate::entry::{Entry, EntryView};
use crate::error::{Error, ErrorSpec};
use crate::text::{
    ascii_lowercase, contains_str, decimal, is_ascii_text, pop_char, push_char, spec_contains,
    spec_decimal, spec_lowercase, to_lowercase, wipe_string,
};

verus! {

/// How long a copied secret stays on the clipboard before it is cleared, in
/// seconds.
pub const CLIP_TIMEOUT_SECS: u64 = 30;

/// Keys the app understands, independent of any terminal library.
#[derive(Debug, Clone, Copy, PartialEq, Eq, Structural)]
pub enum Key {
    Char(char),
    /// A character typed while holding Ctrl (used for Ctrl+G → generate).
    Ctrl(char),
    Enter,
    Esc,
    Tab,
    Backspace,
    Up,
    Down,
    Left,
    Right,
    Space,
}

/// Which input field is focused in the Add/Edit forms.
#[derive(Debug, Clone, Copy, PartialEq, Eq, Structural)]
pub enum InputMode {
    Username,
    Password,
    Description,
}

/// The field after `m` in the Add/Edit forms, wrapping around.
pub open spec fn spec_next_input(m: InputMode) -> InputMode {
    match m {
        InputMode::Username => InputMode::Password,
        InputMode::Password => InputMode::Description,
        InputMode::Description => InputMode::Username,
    }
}

impl InputMode {
    fn next(self) -> (n: Self)
        ensures
            n == spec_next_input(self),
    {
        match self {
            InputMode::Username => InputMode::Password,
            InputMode::Password => InputMode::Description,
            InputMode::Description => InputMode::Username,
        }
    }
}

/// Three presses of Tab bring the focus back to where it was, passing
/// through every field.
pub proof fn lemma_focus_cycle(m: InputMode)
    ensures
        spec_next_input(spec_next_input(spec_next_input(m))) == m,
        spec_next_input(m) != m,
        spec_next_input(spec_next_input(m)) != m,
{
}

/// The high-level screen the app is on.
#[derive(Debug, Clone, Copy, PartialEq, Eq, Structural)]
pub enum Mode {
    Locked,
    Browse,
    View,
    Add,
    Edit,
    /// Confirmation dialog before deleting the entry at the given index.
    ConfirmDelete(usize),
}

/// Work the state machine hands to its caller.
#[derive(Debug)]
pub enum Effect {
    /// Nothing to do.
    Nothing,
    /// Open the vault at `vault_path` with `master_pass` (or create it when
    /// there is no file there), then call [`App::finish_unlock`] or
    /// [`App::finish_create`].
    OpenVault,
    /// Persist the session's entries, then call [`App::finish_persist`].
    Persist,
    /// Put the text on the clipboard, then call [`App::finish_copy`].
    Copy(String),
}

/// The mathematical value of an [`Effect`].
pub enum EffectView {
    Nothing,
    OpenVault,
    Persist,
    Copy(Seq<char>),
}

impl View for Effect {
    type V = EffectView;

    open spec fn view(&self) -> EffectView {
        match self {
            Effect::Nothing => EffectView::Nothing,
            Effect::OpenVault => EffectView::OpenVault,
            Effect::Persist => EffectView::Persist,
            Effect::Copy(t) => EffectView::Copy(t@),
        }
    }
}

/// A change made in memory whose persistence the caller has yet to report,
/// with the encrypted entries as they were before it, to be put back should
/// persisting fail: the session stays what the vault file holds.
pub enum PendingWrite {
    Idle,
    /// An entry was added at the end.
    Add(Vec<EncryptedEntry>),
    /// The selected entry was replaced by this one.
    Edit(Entry, Vec<EncryptedEntry>),
    /// An entry was deleted.
    Delete(Vec<EncryptedEntry>),
}

/// The mathematical value of a pending write.
pub enum PendingView {
    Idle,
    Add(Seq<EncryptedEntryView>),
    Edit(EntryView, Seq<EncryptedEntryView>),
    Delete(Seq<EncryptedEntryView>),
}

/// The views of a list of encrypted entries.
pub open spec fn entries_view(entries: Seq<EncryptedEntry>) -> Seq<EncryptedEntryView> {
    entries.map_values(|e: EncryptedEntry| e@)
}

/// Application state.
pub struct App {
    pub mode: Mode,
    /// The unlocked session, or `None` while locked.
    pub cache: Option<SessionCache>,
    /// Currently selected entry index (into the full list).
    pub selected: Option<usize>,
    /// The entry currently being viewed (plaintext, lazily loaded).
    pub entry: Option<Entry>,
    /// Master-password input buffer (only used while locked).
    pub master_pass: String,
    /// Add/Edit form buffers.
    pub username: String,
    pub password: String,
    pub description: String,
    /// Which field the Add/Edit form is editing.
    pub focus: InputMode,
    /// Whether the password field is shown in cleartext.
    pub show_password: bool,
    /// Live search filter for the sidebar.
    pub search: String,
    /// Whether search input is active (typed chars go to `search`).
    pub searching: bool,
    /// One-line status message.
    pub status: String,
    /// Seconds until the clipboard clears (for display), if a copy is pending.
    pub clip_remaining: Option<u64>,
    /// Where the vault lives.
    pub vault_path: String,
    /// Quit flag — the event loop ends when this is set.
    pub quit: bool,
    /// The change awaiting [`App::finish_persist`], if any.
    pub pending: PendingWrite,
}

/// The mathematical value of an [`App`].
pub struct AppView {
    pub mode: Mode,
    pub cache: Option<SessionView>,
    pub selected: Option<usize>,
    pub entry: Option<EntryView>,
    pub master_pass: Seq<char>,
    pub username: Seq<char>,
    pub password: Seq<char>,
    pub description: Seq<char>,
    pub focus: InputMode,
    pub show_password: bool,
    pub search: Seq<char>,
    pub searching: bool,
    pub status: Seq<char>,
    pub clip_remaining: Option<u64>,
    pub vault_path: Seq<char>,
    pub quit: bool,
    pub pending: PendingView,
}

impl View for App {
    type V = AppView;

    open spec fn view(&self) -> AppView {
        AppView {
            mode: self.mode,
            cache: match self.cache {
                Some(c) => Some(c@),
                None => None,
            },
            selected: self.selected,
            entry: match self.entry {
                Some(e) => Some(e@),
                None => None,
            },
            master_pass: self.master_pass@,
            username: self.username@,
            password: self.password@,
            description: self.description@,
            focus: self.focus,
            show_password: self.show_password,
            search: self.search@,
            searching: self.searching,
            status: self.status@,
            clip_remaining: self.clip_remaining,
            vault_path: self.vault_path@,
            quit: self.quit,
            pending: match self.pending {
                PendingWrite::Idle => PendingView::Idle,
                PendingWrite::Add(before) => PendingView::Add(entries_view(before@)),
                PendingWrite::Edit(e, before) => PendingView::Edit(e@, entries_view(before@)),
                PendingWrite::Delete(before) => PendingView::Delete(entries_view(before@)),
            },
        }
    }
}

// ── Search / selection specification ───────────────────────────────────────

/// Whether a sidebar name passes the (already lowercased) search query.
pub open spec fn name_matches(name: Seq<char>, query: Seq<char>) -> bool {
    query.len() == 0 || spec_contains(spec_lowercase(name), query)
}

/// The indices below `n` whose names pass the query, in increasing order.
pub open spec fn visible_upto(names: Seq<Seq<char>>, query: Seq<char>, n: nat) -> Seq<usize>
    decreases n,
{
    if n == 0 {
        seq![]
    } else {
        let prev = visible_upto(names, query, (n - 1) as nat);
        if name_matches(names[n - 1], query) {
            prev.push((n - 1) as usize)
        } else {
            prev
        }
    }
}

/// The query the sidebar filters by: empty for an empty search, else the
/// lowercased search text.
pub open spec fn search_query(search: Seq<char>) -> Seq<char> {
    if search.len() == 0 {
        Seq::empty()
    } else {
        spec_lowercase(search)
    }
}

/// The entries shown in the sidebar: all of them when the search is empty,
/// else those whose lowercased name contains the lowercased search text.
pub open spec fn spec_visible(v: AppView) -> Seq<usize> {
    match v.cache {
        None => seq![],
        Some(c) => visible_upto(spec_usernames(c), search_query(v.search), c.entries.len()),
    }
}

/// With an empty query every index below `n` is listed, in order.
pub proof fn lemma_visible_all(names: Seq<Seq<char>>, n: nat)
    ensures
        visible_upto(names, Seq::empty(), n) == Seq::new(n, |i: int| i as usize),
    decreases n,
{
    if n > 0 {
        lemma_visible_all(names, (n - 1) as nat);
        assert(Seq::new(n, |i: int| i as usize) =~= Seq::new((n - 1) as nat, |i: int| i as usize).push(
            (n - 1) as usize,
        ));
    }
}

/// A name that contains a query contains every prefix of it.
proof fn lemma_matches_prefix(name: Seq<char>, q: Seq<char>, t: Seq<char>)
    requires
        name_matches(name, q + t),
    ensures
        name_matches(name, q),
{
    if q.len() > 0 {
        let hay = spec_lowercase(name);
        let needle = q + t;
        let i = choose|i: int|
            0 <= i <= hay.len() - needle.len() && #[trigger] hay.subrange(i, i + needle.len())
                == needle;
        assert(hay.subrange(i, i + q.len()) =~= q) by {
            assert forall|k: int| 0 <= k < q.len() implies hay.subrange(i, i + q.len())[k]
                == q[k] by {
                assert(hay.subrange(i, i + needle.len())[k] == needle[k]);
            }
        }
    }
}

/// Lengthening the query never lists an index that the shorter query hid:
/// every index listed for `q + t` is listed for `q`.
pub proof fn lemma_query_narrows(names: Seq<Seq<char>>, q: Seq<char>, t: Seq<char>, n: nat)
    requires
        n <= names.len(),
        n <= usize::MAX + 1,
    ensures
        forall|k: usize|
            visible_upto(names, q + t, n).contains(k) ==> visible_upto(names, q, n).contains(k),
{
    lemma_visible_upto(names, q + t, n);
    lemma_visible_upto(names, q, n);
    assert forall|k: usize| visible_upto(names, q + t, n).contains(k) implies visible_upto(
        names,
        q,
        n,
    ).contains(k) by {
        let vis = visible_upto(names, q + t, n);
        let j = choose|j: int| 0 <= j < vis.len() && vis[j] == k;
        assert(vis[j] < n);
        lemma_matches_prefix(names[k as int], q, t);
    }
}

/// Typing more of an ASCII search narrows the sidebar: lowercasing ASCII text
/// goes character by character, so every entry listed for the search `s + t`
/// is listed for `s` ([`App::visible_indices`] filters ASCII searches by
/// [`ascii_lowercase`]).
pub proof fn lemma_search_narrows(names: Seq<Seq<char>>, s: Seq<char>, t: Seq<char>, n: nat)
    requires
        n <= names.len(),
        n <= usize::MAX + 1,
    ensures
        forall|k: usize|
            visible_upto(names, ascii_lowercase(s + t), n).contains(k) ==> visible_upto(
                names,
                ascii_lowercase(s),
                n,
            ).contains(k),
{
    assert(ascii_lowercase(s + t) =~= ascii_lowercase(s) + ascii_lowercase(t));
    lemma_query_narrows(names, ascii_lowercase(s), ascii_lowercase(t), n);
}

/// The filtered list holds exactly the matching indices, in increasing order.
pub proof fn lemma_visible_upto(names: Seq<Seq<char>>, query: Seq<char>, n: nat)
    requires
        n <= names.len(),
        n <= usize::MAX + 1,
    ensures
        forall|k: int|
            0 <= k < visible_upto(names, query, n).len() ==> (#[trigger] visible_upto(
                names,
                query,
                n,
            )[k]) < n && name_matches(names[visible_upto(names, query, n)[k] as int], query),
        forall|i: int|
            0 <= i < n && name_matches(names[i], query) ==> visible_upto(
                names,
                query,
                n,
            ).contains(i as usize),
        forall|a: int, b: int|
            0 <= a < b < visible_upto(names, query, n).len() ==> visible_upto(names, query, n)[a]
                < visible_upto(names, query, n)[b],
    decreases n,
{
    if n > 0 {
        lemma_visible_upto(names, query, (n - 1) as nat);
        let prev = visible_upto(names, query, (n - 1) as nat);
        let cur = visible_upto(names, query, n);
        assert forall|i: int| 0 <= i < n && name_matches(names[i], query) implies cur.contains(
            i as usize,
        ) by {
            if i < n - 1 {
                let k = choose|k: int| 0 <= k < prev.len() && prev[k] == i as usize;
                assert(cur[k] == prev[k]);
            } else {
                assert(cur[cur.len() - 1] == i as usize);
            }
        }
    }
}

/// The position of `s` in the visible list, when it is there.
pub open spec fn visible_position(vis: Seq<usize>, s: usize) -> int {
    choose|i: int| 0 <= i < vis.len() && vis[i] == s
}

/// Move the selection one step (`dir` is 1 or -1) within the visible entries,
/// wrapping around at both ends.
pub open spec fn spec_move_selection(v: AppView, dir: int) -> AppView {
    let vis = spec_visible(v);
    if vis.len() == 0 {
        v
    } else {
        let next = match v.selected {
            Some(s) => if vis.contains(s) {
                let j = visible_position(vis, s) + dir;
                if j < 0 {
                    vis.len() - 1
                } else {
                    j % (vis.len() as int)
                }
            } else {
                0
            },
            None => 0,
        };
        AppView { selected: Some(vis[next]), ..v }
    }
}

/// Make the selection point at a visible entry: none when nothing is visible,
/// the first visible entry when the selection is hidden or absent.
pub open spec fn spec_clamp_selection(v: AppView) -> AppView {
    let vis = spec_visible(v);
    if vis.len() == 0 {
        AppView { selected: None, ..v }
    } else if v.selected matches Some(s) && vis.contains(s) {
        v
    } else {
        AppView { selected: Some(vis[0]), ..v }
    }
}

/// After clamping, the selection is absent exactly when nothing is visible,
/// and otherwise it is a visible entry.
pub proof fn lemma_clamp_selection(v: AppView)
    ensures
        spec_clamp_selection(v).selected is None <==> spec_visible(v).len() == 0,
        spec_clamp_selection(v).selected matches Some(s) ==> spec_visible(v).contains(s),
        spec_visible(spec_clamp_selection(v)) == spec_visible(v),
{
    let vis = spec_visible(v);
    if vis.len() > 0 {
        assert(vis.contains(vis[0]));
    }
}

/// Moving down and then up again returns to the same visible entry.
pub proof fn lemma_move_down_up(v: AppView)
    requires
        v.cache matches Some(c) && c.entries.len() <= usize::MAX,
        v.selected matches Some(s) && spec_visible(v).contains(s),
    ensures
        spec_move_selection(spec_move_selection(v, 1), -1).selected == v.selected,
{
    let vis = spec_visible(v);
    let c = v.cache->0;
    lemma_visible_upto(spec_usernames(c), search_query(v.search), c.entries.len());
    let s = v.selected->0;
    let i = visible_position(vis, s);
    let n = vis.len() as int;
    let v1 = spec_move_selection(v, 1);
    assert(spec_visible(v1) == vis);
    let j = if i + 1 < n { i + 1 } else { 0 };
    assert((i + 1) % n == j) by (nonlinear_arith)
        requires
            0 <= i < n,
            j == if i + 1 < n { i + 1 } else { 0 },
    ;
    assert(v1.selected == Some(vis[j]));
    assert(vis.contains(vis[j]));
    let p = visible_position(vis, vis[j]);
    assert(p == j) by {
        if p < j {
            assert(vis[p] < vis[j]);
        } else if p > j {
            assert(vis[j] < vis[p]);
        }
    }
    let back = if j - 1 < 0 { n - 1 } else { (j - 1) % n };
    assert(back == i) by (nonlinear_arith)
        requires
            0 <= i < n,
            j == if i + 1 < n { i + 1 } else { 0 },
            back == if j - 1 < 0 { n - 1 } else { (j - 1) % n },
    ;
    let q = visible_position(vis, s);
    assert(vis[q] == s);
}

// ── Transition specification ───────────────────────────────────────────────

/// `s` without its last character (unchanged when empty), as `String::pop` leaves it.
pub open spec fn popped(s: Seq<char>) -> Seq<char> {
    if s.len() == 0 {
        s
    } else {
        s.drop_last()
    }
}

/// "y" for one entry, "ies" otherwise.
pub open spec fn entries_suffix(n: nat) -> Seq<char> {
    if n == 1 {
        "y"@
    } else {
        "ies"@
    }
}

/// The status after unlocking a vault of `n` entries.
pub open spec fn loaded_status(n: nat) -> Seq<char> {
    spec_decimal(n) + " entr"@ + entries_suffix(n) + " loaded"@
}

/// The status after saving a vault of `n` entries.
pub open spec fn saved_status(n: nat) -> Seq<char> {
    "saved — "@ + spec_decimal(n) + " entr"@ + entries_suffix(n)
}

/// The entry the Add/Edit form describes.
pub open spec fn form_entry(v: AppView) -> EntryView {
    EntryView { username: v.username, password: v.password, description: v.description }
}

/// Keys typed while locked.
pub open spec fn spec_locked(v: AppView, key: Key) -> (AppView, EffectView) {
    match key {
        Key::Esc => (AppView { quit: true, ..v }, EffectView::Nothing),
        Key::Char(c) => (AppView { master_pass: v.master_pass.push(c), ..v }, EffectView::Nothing),
        Key::Backspace => (AppView { master_pass: popped(v.master_pass), ..v }, EffectView::Nothing),
        Key::Enter => if v.master_pass.len() == 0 {
            (v, EffectView::Nothing)
        } else {
            (v, EffectView::OpenVault)
        },
        _ => (v, EffectView::Nothing),
    }
}

/// A key typed while search input is active, followed by re-clamping the
/// selection.
pub open spec fn spec_search_key(v: AppView, key: Key) -> AppView {
    let after = match key {
        Key::Esc => AppView { searching: false, search: Seq::empty(), ..v },
        Key::Enter => AppView { searching: false, ..v },
        Key::Backspace => AppView { search: popped(v.search), ..v },
        Key::Space => AppView { search: v.search.push(' '), ..v },
        Key::Char(c) => AppView { search: v.search.push(c), ..v },
        _ => v,
    };
    spec_clamp_selection(after)
}

/// Open the Add form with empty fields.
pub open spec fn spec_start_add(v: AppView) -> AppView {
    AppView {
        username: Seq::empty(),
        password: Seq::empty(),
        description: Seq::empty(),
        focus: InputMode::Username,
        show_password: false,
        status: Seq::empty(),
        mode: Mode::Add,
        ..v
    }
}

/// View the entry at `i`, when it can be read.
pub open spec fn spec_open_entry(v: AppView, i: usize) -> AppView {
    match v.cache {
        Some(c) => match spec_get_entry(c, i as int) {
            Some(e) => AppView { entry: Some(e), show_password: false, mode: Mode::View, ..v },
            None => v,
        },
        None => v,
    }
}

/// Reload the viewed entry from the selection.
pub open spec fn spec_refresh_entry(v: AppView) -> AppView {
    match (v.selected, v.cache) {
        (Some(i), Some(c)) => AppView {
            entry: spec_get_entry(c, i as int),
            show_password: false,
            ..v
        },
        _ => v,
    }
}

/// Open the Edit form on the viewed entry.
pub open spec fn spec_start_edit(v: AppView) -> AppView {
    match v.entry {
        Some(e) => AppView {
            username: e.username,
            password: e.password,
            description: e.description,
            focus: InputMode::Username,
            show_password: false,
            status: Seq::empty(),
            mode: Mode::Edit,
            ..v
        },
        None => v,
    }
}

/// Ask to delete the selected entry.
pub open spec fn spec_ask_delete(v: AppView) -> AppView {
    match v.selected {
        Some(i) => AppView { mode: Mode::ConfirmDelete(i), ..v },
        None => v,
    }
}

/// Keys typed on the entry list.
pub open spec fn spec_browse(v: AppView, key: Key) -> (AppView, EffectView) {
    if v.searching {
        (spec_search_key(v, key), EffectView::Nothing)
    } else {
        let next = match key {
            Key::Esc => AppView { quit: true, ..v },
            Key::Char('/') => AppView { searching: true, ..v },
            Key::Char('a') | Key::Char('A') => spec_start_add(v),
            Key::Char('d') | Key::Char('D') => spec_ask_delete(v),
            Key::Enter => match v.selected {
                Some(i) => spec_open_entry(v, i),
                None => v,
            },
            Key::Up => spec_move_selection(v, -1),
            Key::Down => spec_move_selection(v, 1),
            _ => v,
        };
        (next, EffectView::Nothing)
    }
}

/// Keys typed while viewing an entry.
pub open spec fn spec_view(v: AppView, key: Key) -> (AppView, EffectView) {
    if v.searching {
        (spec_search_key(v, key), EffectView::Nothing)
    } else {
        match key {
            Key::Esc => (
                AppView { entry: None, show_password: false, mode: Mode::Browse, ..v },
                EffectView::Nothing,
            ),
            Key::Space => (AppView { show_password: !v.show_password, ..v }, EffectView::Nothing),
            Key::Char('c') | Key::Char('C') => match v.entry {
                Some(e) => (v, EffectView::Copy(e.password)),
                None => (v, EffectView::Nothing),
            },
            Key::Char('u') | Key::Char('U') => match v.entry {
                Some(e) => (v, EffectView::Copy(e.username)),
                None => (v, EffectView::Nothing),
            },
            Key::Char('d') | Key::Char('D') => (spec_ask_delete(v), EffectView::Nothing),
            Key::Right => (spec_start_edit(v), EffectView::Nothing),
            Key::Up => (spec_refresh_entry(spec_move_selection(v, -1)), EffectView::Nothing),
            Key::Down => (spec_refresh_entry(spec_move_selection(v, 1)), EffectView::Nothing),
            Key::Char('/') => (AppView { searching: true, ..v }, EffectView::Nothing),
            _ => (v, EffectView::Nothing),
        }
    }
}

/// Type a character into the focused form field.
pub open spec fn spec_edit_char(v: AppView, c: char) -> AppView {
    match v.focus {
        InputMode::Username => AppView { username: v.username.push(c), ..v },
        InputMode::Password => AppView { password: v.password.push(c), ..v },
        InputMode::Description => AppView { description: v.description.push(c), ..v },
    }
}

/// Delete the last character of the focused form field.
pub open spec fn spec_edit_backspace(v: AppView) -> AppView {
    match v.focus {
        InputMode::Username => AppView { username: popped(v.username), ..v },
        InputMode::Password => AppView { password: popped(v.password), ..v },
        InputMode::Description => AppView { description: popped(v.description), ..v },
    }
}

/// Space toggles the password display on the password field and types a
/// space elsewhere.
pub open spec fn spec_edit_space(v: AppView) -> AppView {
    if v.focus == InputMode::Password {
        AppView { show_password: !v.show_password, ..v }
    } else {
        spec_edit_char(v, ' ')
    }
}

/// Whether `new` follows from `old` by generating a password.
pub open spec fn generate_step(old: AppView, new: AppView) -> bool {
    &&& new == AppView {
        password: new.password,
        show_password: true,
        status: "password generated — space to hide"@,
        ..old
    }
    &&& new.password.len() == PASSWORD_LEN
    &&& in_password_alphabet(new.password)
}

/// Keys of the Add and Edit forms other than Esc, Enter and Ctrl+G.
pub open spec fn spec_form_key(v: AppView, key: Key) -> AppView {
    match key {
        Key::Tab => AppView { focus: spec_next_input(v.focus), ..v },
        Key::Backspace => spec_edit_backspace(v),
        Key::Space => spec_edit_space(v),
        Key::Char(c) => spec_edit_char(v, c),
        _ => v,
    }
}

/// Whether `new` and `eff` follow from saving the Add form.
pub open spec fn commit_add_step(old: AppView, new: AppView, eff: EffectView) -> bool {
    if old.username.len() == 0 {
        new == AppView { status: "username cannot be empty"@, ..old } && eff == EffectView::Nothing
    } else {
        match old.cache {
            None => new == old && eff == EffectView::Nothing,
            Some(c) => if entry_encryptable(form_entry(old)) {
                &&& new == AppView { cache: new.cache, pending: PendingView::Add(c.entries), ..old }
                &&& new.cache matches Some(c2) && entry_added(c, c2, form_entry(old))
                &&& eff == EffectView::Persist
            } else {
                &&& new == AppView {
                    status: "save error: "@ + ErrorSpec::Crypto(
                        "AES-GCM encryption failed"@,
                    ).text(),
                    ..old
                }
                &&& eff == EffectView::Nothing
            },
        }
    }
}

/// Whether `new` and `eff` follow from saving the Edit form.
pub open spec fn commit_edit_step(old: AppView, new: AppView, eff: EffectView) -> bool {
    if old.username.len() == 0 {
        new == AppView { status: "username cannot be empty"@, ..old } && eff == EffectView::Nothing
    } else {
        match (old.selected, old.cache) {
            (Some(i), Some(c)) => if !entry_encryptable(form_entry(old)) {
                &&& new == AppView {
                    status: "save error: "@ + ErrorSpec::Crypto(
                        "AES-GCM encryption failed"@,
                    ).text(),
                    ..old
                }
                &&& eff == EffectView::Nothing
            } else if i >= c.entries.len() {
                &&& new == AppView {
                    status: "save error: "@ + ErrorSpec::Invalid("entry index out of range"@).text(),
                    ..old
                }
                &&& eff == EffectView::Nothing
            } else {
                &&& new == AppView {
                    cache: new.cache,
                    pending: PendingView::Edit(form_entry(old), c.entries),
                    ..old
                }
                &&& new.cache matches Some(c2) && entry_replaced(c, c2, i as int, form_entry(old))
                &&& eff == EffectView::Persist
            },
            _ => new == old && eff == EffectView::Nothing,
        }
    }
}

/// Whether `new` and `eff` follow from a key on the Add form.
pub open spec fn add_step(old: AppView, key: Key, new: AppView, eff: EffectView) -> bool {
    match key {
        Key::Esc => new == AppView { show_password: false, mode: Mode::Browse, ..old } && eff
            == EffectView::Nothing,
        Key::Enter => commit_add_step(old, new, eff),
        Key::Ctrl('g') | Key::Ctrl('G') => generate_step(old, new) && eff == EffectView::Nothing,
        _ => new == spec_form_key(old, key) && eff == EffectView::Nothing,
    }
}

/// Leave the Edit form, reloading the viewed entry.
pub open spec fn spec_cancel_edit(v: AppView) -> AppView {
    AppView { show_password: false, mode: Mode::View, ..spec_refresh_entry(v) }
}

/// Whether `new` and `eff` follow from a key on the Edit form.
pub open spec fn edit_step(old: AppView, key: Key, new: AppView, eff: EffectView) -> bool {
    match key {
        Key::Esc => new == spec_cancel_edit(old) && eff == EffectView::Nothing,
        Key::Enter => commit_edit_step(old, new, eff),
        Key::Ctrl('g') | Key::Ctrl('G') => generate_step(old, new) && eff == EffectView::Nothing,
        _ => new == spec_form_key(old, key) && eff == EffectView::Nothing,
    }
}

/// Leave the delete dialog: back to the list, nothing viewed, selection
/// clamped.
pub open spec fn spec_after_delete(v: AppView) -> AppView {
    spec_clamp_selection(AppView { entry: None, show_password: false, mode: Mode::Browse, ..v })
}

/// Whether `new` and `eff` follow from confirming the deletion of entry `i`.
pub open spec fn delete_step(old: AppView, i: usize, new: AppView, eff: EffectView) -> bool {
    match old.cache {
        Some(c) => if i < c.entries.len() {
            &&& new == AppView { cache: new.cache, pending: PendingView::Delete(c.entries), ..old }
            &&& new.cache matches Some(c2) && entry_removed(c, c2, i as int)
            &&& eff == EffectView::Persist
        } else {
            &&& new == spec_after_delete(
                AppView {
                    status: "delete failed: "@ + ErrorSpec::Invalid(
                        "entry index out of range"@,
                    ).text(),
                    ..old
                },
            )
            &&& eff == EffectView::Nothing
        },
        None => new == spec_after_delete(old) && eff == EffectView::Nothing,
    }
}

/// Whether `new` and `eff` follow from a key on the delete dialog for `i`.
pub open spec fn confirm_delete_step(
    old: AppView,
    i: usize,
    key: Key,
    new: AppView,
    eff: EffectView,
) -> bool {
    match key {
        Key::Char('y') | Key::Char('Y') => delete_step(old, i, new, eff),
        _ => new == AppView { mode: Mode::Browse, status: "delete cancelled"@, ..old } && eff
            == EffectView::Nothing,
    }
}

/// Whether `new` and `eff` follow from handling `key` in state `old`.
pub open spec fn app_step(old: AppView, key: Key, new: AppView, eff: EffectView) -> bool {
    match old.mode {
        Mode::Locked => (new, eff) == spec_locked(old, key),
        Mode::Browse => (new, eff) == spec_browse(old, key),
        Mode::View => (new, eff) == spec_view(old, key),
        Mode::Add => add_step(old, key, new, eff),
        Mode::Edit => edit_step(old, key, new, eff),
        Mode::ConfirmDelete(i) => confirm_delete_step(old, i, key, new, eff),
    }
}

/// A session with its encrypted entries put back to `entries`.
pub open spec fn with_entries(c: Option<SessionView>, entries: Seq<EncryptedEntryView>) -> Option<
    SessionView,
> {
    match c {
        Some(c) => Some(SessionView { entries, ..c }),
        None => None,
    }
}

/// The state after the caller reports how persisting the pending change went.
/// When it failed, the change is undone in memory as well, so that the
/// session keeps what the vault file holds.
pub open spec fn spec_finish_persist(v: AppView, result: Result<(), ErrorSpec>) -> AppView {
    let base = AppView { pending: PendingView::Idle, ..v };
    match v.pending {
        PendingView::Idle => v,
        PendingView::Add(before) => match result {
            Ok(_) => {
                let n = match v.cache {
                    Some(c) => c.entries.len(),
                    None => 0,
                };
                AppView {
                    selected: Some((n - 1) as usize),
                    status: saved_status(n),
                    username: Seq::empty(),
                    password: Seq::empty(),
                    description: Seq::empty(),
                    show_password: false,
                    focus: InputMode::Username,
                    mode: Mode::Browse,
                    ..base
                }
            },
            Err(e) => AppView {
                cache: with_entries(v.cache, before),
                status: "save error: "@ + e.text(),
                ..base
            },
        },
        PendingView::Edit(e, before) => match result {
            Ok(_) => AppView {
                entry: Some(e),
                status: "entry updated"@,
                show_password: false,
                mode: Mode::View,
                ..base
            },
            Err(err) => AppView {
                cache: with_entries(v.cache, before),
                status: "save error: "@ + err.text(),
                ..base
            },
        },
        PendingView::Delete(before) => spec_after_delete(
            match result {
                Ok(_) => AppView { status: "entry deleted"@, ..base },
                Err(e) => AppView {
                    cache: with_entries(v.cache, before),
                    status: "delete failed: "@ + e.text(),
                    ..base
                },
            },
        ),
    }
}

/// The state after the caller reports how opening an existing vault went.
/// The master password is wiped either way.
pub open spec fn spec_finish_unlock(v: AppView, result: Result<SessionView, ErrorSpec>) -> AppView {
    match result {
        Ok(c) => AppView {
            cache: Some(c),
            status: loaded_status(c.entries.len()),
            selected: if c.entries.len() > 0 {
                Some(0)
            } else {
                None
            },
            mode: Mode::Browse,
            master_pass: Seq::empty(),
            ..v
        },
        Err(e) => AppView { status: "unlock failed: "@ + e.text(), master_pass: Seq::empty(), ..v },
    }
}

/// The state after the caller reports how creating a new vault went. The
/// master password is wiped either way.
pub open spec fn spec_finish_create(v: AppView, result: Result<SessionView, ErrorSpec>) -> AppView {
    match result {
        Ok(c) => AppView {
            cache: Some(c),
            status: "new vault created — press a to add entries"@,
            mode: Mode::Browse,
            master_pass: Seq::empty(),
            ..v
        },
        Err(e) => AppView { status: "create failed: "@ + e.text(), master_pass: Seq::empty(), ..v },
    }
}

// ── Laws of the state machine ──────────────────────────────────────────────

/// Whichever way opening or creating the vault goes, the master password is
/// wiped afterwards.
pub proof fn lemma_master_password_wiped(v: AppView, r: Result<SessionView, ErrorSpec>)
    ensures
        spec_finish_unlock(v, r).master_pass.len() == 0,
        spec_finish_create(v, r).master_pass.len() == 0,
{
}

/// Saving the Add form and persisting it successfully selects the new entry,
/// which reads back as what was typed, and returns to the cleared list.
pub proof fn lemma_add_then_persist(old: AppView, mid: AppView)
    requires
        old.mode == Mode::Add,
        old.cache matches Some(c) && c.entries.len() < usize::MAX,
        app_step(old, Key::Enter, mid, EffectView::Persist),
    ensures
        ({
            let fin = spec_finish_persist(mid, Ok(()));
            &&& fin.cache matches Some(c) && fin.selected == Some((c.entries.len() - 1) as usize)
                && spec_get_entry(c, c.entries.len() - 1) == Some(form_entry(old))
            &&& fin.mode == Mode::Browse
            &&& fin.username.len() == 0 && fin.password.len() == 0 && fin.description.len() == 0
            &&& fin.pending == PendingView::Idle
        }),
{
    let c = old.cache->0;
    let c2 = mid.cache->0;
    lemma_read_after_add(c, c2, form_entry(old));
}

/// Saving the Edit form and persisting it successfully shows the edited
/// entry, which the session reads back at the selected index.
pub proof fn lemma_edit_then_persist(old: AppView, mid: AppView)
    requires
        old.mode == Mode::Edit,
        app_step(old, Key::Enter, mid, EffectView::Persist),
    ensures
        ({
            let fin = spec_finish_persist(mid, Ok(()));
            &&& fin.entry == Some(form_entry(old))
            &&& fin.mode == Mode::View
            &&& fin.selected == old.selected
            &&& fin.selected matches Some(i) && fin.cache matches Some(c) && spec_get_entry(
                c,
                i as int,
            ) == Some(form_entry(old))
        }),
{
    let i = old.selected->0;
    let c = old.cache->0;
    let c2 = mid.cache->0;
    lemma_read_after_update(c, c2, i as int, form_entry(old));
}

/// Confirming a deletion and persisting it removes exactly that entry and
/// leaves the selection on a visible entry (or none when nothing is visible).
pub proof fn lemma_delete_then_persist(old: AppView, i: usize, mid: AppView)
    requires
        old.mode == Mode::ConfirmDelete(i),
        app_step(old, Key::Char('y'), mid, EffectView::Persist),
    ensures
        ({
            let fin = spec_finish_persist(mid, Ok(()));
            &&& old.cache matches Some(c) && fin.cache matches Some(c2) && entry_removed(
                c,
                c2,
                i as int,
            )
            &&& fin.status == "entry deleted"@
            &&& fin.mode == Mode::Browse
            &&& fin.entry is None
            &&& fin.selected is None <==> spec_visible(fin).len() == 0
            &&& fin.selected matches Some(s) ==> spec_visible(fin).contains(s)
        }),
{
    let pre = AppView {
        status: "entry deleted"@,
        entry: None,
        show_password: false,
        mode: Mode::Browse,
        pending: PendingView::Idle,
        ..mid
    };
    lemma_clamp_selection(pre);
}

/// Any key but `y` in the delete dialog leaves the entries untouched.
pub proof fn lemma_delete_cancelled(old: AppView, i: usize, key: Key, new: AppView, eff: EffectView)
    requires
        old.mode == Mode::ConfirmDelete(i),
        key != Key::Char('y') && key != Key::Char('Y'),
        app_step(old, key, new, eff),
    ensures
        new.cache == old.cache,
        new.mode == Mode::Browse,
        eff == EffectView::Nothing,
{
}

/// In the entry view, Space shows or hides the password and changes nothing
/// else; pressing it twice gives the state back.
pub proof fn lemma_view_space_twice(
    v: AppView,
    v1: AppView,
    e1: EffectView,
    v2: AppView,
    e2: EffectView,
)
    requires
        v.mode == Mode::View,
        !v.searching,
        app_step(v, Key::Space, v1, e1),
        app_step(v1, Key::Space, v2, e2),
    ensures
        v1 == (AppView { show_password: !v.show_password, ..v }),
        e1 == EffectView::Nothing,
        e2 == EffectView::Nothing,
        v2 == v,
{
}

/// In the entry view, `u` or `U` copies the viewed entry's username and `c`
/// or `C` its password; either way nothing else changes.
pub proof fn lemma_view_copy_keys(v: AppView, key: Key, new: AppView, eff: EffectView)
    requires
        v.mode == Mode::View,
        !v.searching,
        v.entry is Some,
        app_step(v, key, new, eff),
    ensures
        key == Key::Char('u') || key == Key::Char('U') ==> eff == EffectView::Copy(
            v.entry->0.username,
        ),
        key == Key::Char('c') || key == Key::Char('C') ==> eff == EffectView::Copy(
            v.entry->0.password,
        ),
        eff matches EffectView::Copy(t) ==> new == v && (t == v.entry->0.username || t
            == v.entry->0.password),
        eff matches EffectView::Copy(t) && t != v.entry->0.password ==> key == Key::Char('u')
            || key == Key::Char('U'),
        eff matches EffectView::Copy(t) && t != v.entry->0.username ==> key == Key::Char('c')
            || key == Key::Char('C'),
{
}

/// While searching in the list or the entry view, every typed character,
/// Space included, is appended to the search text, and the search stays on.
pub proof fn lemma_search_typing_appends(v: AppView, key: Key, new: AppView, eff: EffectView)
    requires
        v.mode == Mode::Browse || v.mode == Mode::View,
        v.searching,
        app_step(v, key, new, eff),
    ensures
        key == Key::Space ==> new.search == v.search.push(' ') && new.searching,
        key matches Key::Char(c) ==> new.search == v.search.push(c) && new.searching,
        key == Key::Backspace ==> new.search == popped(v.search) && new.searching,
        eff == EffectView::Nothing,
        new.cache == v.cache,
        new.mode == v.mode,
{
}

/// In the Add and Edit forms, typing a character changes only the focused
/// field, and Backspace right after gives the state back.
pub proof fn lemma_type_then_erase(
    v: AppView,
    c: char,
    v1: AppView,
    e1: EffectView,
    v2: AppView,
    e2: EffectView,
)
    requires
        v.mode == Mode::Add || v.mode == Mode::Edit,
        app_step(v, Key::Char(c), v1, e1),
        app_step(v1, Key::Backspace, v2, e2),
    ensures
        v1 == spec_edit_char(v, c),
        e1 == EffectView::Nothing,
        e2 == EffectView::Nothing,
        v2 == v,
{
    assert(v.username.push(c).drop_last() =~= v.username);
    assert(v.password.push(c).drop_last() =~= v.password);
    assert(v.description.push(c).drop_last() =~= v.description);
}

/// A change whose save fails is undone: after a key that asks to persist,
/// a failed save leaves the session as it was before the key, and a
/// successful one keeps the change.
pub proof fn lemma_failed_save_undone(v: AppView, key: Key, mid: AppView, e: ErrorSpec)
    requires
        app_step(v, key, mid, EffectView::Persist),
    ensures
        spec_finish_persist(mid, Err(e)).cache == v.cache,
        spec_finish_persist(mid, Ok(())).cache == mid.cache,
        spec_finish_persist(mid, Err(e)).pending is Idle,
        spec_finish_persist(mid, Ok(())).pending is Idle,
{
}

/// The shape of every state the app settles in between keys, once each
/// effect has been reported back: no change awaits saving, a session is open
/// exactly when the app is unlocked, and the selection and the entry of a
/// delete dialog are indices of the session's entries.
pub open spec fn settled(v: AppView) -> bool {
    &&& v.pending is Idle
    &&& (v.mode == Mode::Locked <==> v.cache is None)
    &&& (v.cache matches Some(c) ==> c.entries.len() <= usize::MAX)
    &&& (v.selected matches Some(s) ==> (v.cache matches Some(c) && s < c.entries.len()))
    &&& (v.mode matches Mode::ConfirmDelete(i) ==> (v.cache matches Some(c) && i
        < c.entries.len()))
}

proof fn lemma_visible_below(v: AppView)
    requires
        v.cache matches Some(c) && c.entries.len() <= usize::MAX,
    ensures
        forall|k: int|
            0 <= k < spec_visible(v).len() ==> #[trigger] spec_visible(v)[k]
                < v.cache->0.entries.len(),
{
    let c = v.cache->0;
    lemma_visible_upto(spec_usernames(c), search_query(v.search), c.entries.len());
}

proof fn lemma_clamp_in_range(v: AppView)
    requires
        v.cache matches Some(c) && c.entries.len() <= usize::MAX,
    ensures
        spec_clamp_selection(v).selected matches Some(s) ==> s < v.cache->0.entries.len(),
{
    lemma_visible_below(v);
    lemma_clamp_selection(v);
    let vis = spec_visible(v);
    if let Some(s) = spec_clamp_selection(v).selected {
        let k = choose|k: int| 0 <= k < vis.len() && vis[k] == s;
        assert(vis[k] < v.cache->0.entries.len());
    }
}

proof fn lemma_search_in_range(v: AppView, key: Key)
    requires
        v.cache matches Some(c) && c.entries.len() <= usize::MAX,
    ensures
        spec_search_key(v, key).selected matches Some(s) ==> s < v.cache->0.entries.len(),
{
    let after = match key {
        Key::Esc => AppView { searching: false, search: Seq::empty(), ..v },
        Key::Enter => AppView { searching: false, ..v },
        Key::Backspace => AppView { search: popped(v.search), ..v },
        Key::Space => AppView { search: v.search.push(' '), ..v },
        Key::Char(c) => AppView { search: v.search.push(c), ..v },
        _ => v,
    };
    lemma_clamp_in_range(after);
}

proof fn lemma_move_in_range(v: AppView, dir: int)
    requires
        v.cache matches Some(c) && c.entries.len() <= usize::MAX,
        dir == 1 || dir == -1,
        v.selected matches Some(s) ==> s < v.cache->0.entries.len(),
    ensures
        spec_move_selection(v, dir).selected matches Some(s) ==> s < v.cache->0.entries.len(),
{
    lemma_visible_below(v);
    let vis = spec_visible(v);
    let n = vis.len() as int;
    if n > 0 {
        if let Some(s) = v.selected {
            if vis.contains(s) {
                let j = visible_position(vis, s) + dir;
                if j >= 0 {
                    assert(0 <= j % n < n) by (nonlinear_arith)
                        requires
                            j >= 0,
                            n > 0,
                    ;
                    assert(vis[j % n] < v.cache->0.entries.len());
                } else {
                    assert(vis[n - 1] < v.cache->0.entries.len());
                }
            } else {
                assert(vis[0] < v.cache->0.entries.len());
            }
        } else {
            assert(vis[0] < v.cache->0.entries.len());
        }
    }
}

/// Every key whose effect is not a save keeps the app settled, and once the
/// app is unlocked no key locks it again.
pub proof fn lemma_key_keeps_settled(v: AppView, key: Key, v1: AppView, eff: EffectView)
    requires
        settled(v),
        app_step(v, key, v1, eff),
        !(eff is Persist),
    ensures
        settled(v1),
        v.mode != Mode::Locked ==> v1.mode != Mode::Locked,
{
    match v.mode {
        Mode::Browse => {
            if v.searching {
                lemma_search_in_range(v, key);
            } else {
                lemma_move_in_range(v, 1);
                lemma_move_in_range(v, -1);
            }
        },
        Mode::View => {
            if v.searching {
                lemma_search_in_range(v, key);
            } else {
                lemma_move_in_range(v, 1);
                lemma_move_in_range(v, -1);
            }
        },
        _ => {},
    }
}

/// A key that asks to save, followed by the caller's report of the save,
/// leaves the app settled and unlocked, whether the save worked or not.
pub proof fn lemma_save_keeps_settled(v: AppView, key: Key, mid: AppView, r: Result<(), ErrorSpec>)
    requires
        settled(v),
        v.cache matches Some(c) && c.entries.len() < usize::MAX,
        app_step(v, key, mid, EffectView::Persist),
    ensures
        settled(spec_finish_persist(mid, r)),
        spec_finish_persist(mid, r).mode != Mode::Locked,
{
    if let Mode::ConfirmDelete(i) = v.mode {
        let kept = AppView { pending: PendingView::Idle, ..mid };
        let pre = match r {
            Ok(_) => AppView { status: "entry deleted"@, ..kept },
            Err(e) => AppView {
                cache: with_entries(mid.cache, mid.pending->Delete_0),
                status: "delete failed: "@ + e.text(),
                ..kept
            },
        };
        lemma_clamp_in_range(AppView { entry: None, show_password: false, mode: Mode::Browse, ..pre });
    }
}

/// Opening or creating the vault from the lock screen, however it goes,
/// leaves the app settled.
pub proof fn lemma_open_keeps_settled(v: AppView, r: Result<SessionView, ErrorSpec>)
    requires
        settled(v),
        v.mode == Mode::Locked,
        r matches Ok(c) ==> c.entries.len() <= usize::MAX,
    ensures
        settled(spec_finish_unlock(v, r)),
        settled(spec_finish_create(v, r)),
{
}

/// Reporting a copy or a clipboard countdown changes only the status and the
/// countdown, so the app stays settled.
pub proof fn lemma_clipboard_keeps_settled(v: AppView, status: Seq<char>, clip: Option<u64>)
    requires
        settled(v),
    ensures
        settled(AppView { status, clip_remaining: clip, ..v }),
{
}

/// The state after the caller reports a copy or a clipboard countdown:
/// a new status and countdown, nothing else.
pub open spec fn clipboard_report(v: AppView, status: Seq<char>, clip: Option<u64>) -> AppView {
    AppView { status, clip_remaining: clip, ..v }
}

/// Whether `next` follows from `prev` by one event of the running program:
/// a key whose effect is not a save; a key that asks to save together with
/// the report of how the save went; opening or creating the vault from the
/// lock screen; or a clipboard report ([`App::finish_copy`],
/// [`App::maybe_clear_clipboard`]).
pub open spec fn app_event(prev: AppView, next: AppView) -> bool {
    ||| exists|key: Key, eff: EffectView| #[trigger]
        app_step(prev, key, next, eff) && !(eff is Persist)
    ||| exists|key: Key, mid: AppView, r: Result<(), ErrorSpec>|
        #![trigger app_step(prev, key, mid, EffectView::Persist), spec_finish_persist(mid, r)]
        app_step(prev, key, mid, EffectView::Persist) && next == spec_finish_persist(mid, r)
    ||| prev.mode == Mode::Locked && exists|r: Result<SessionView, ErrorSpec>|
        #![trigger spec_finish_unlock(prev, r)]
        #![trigger spec_finish_create(prev, r)]
        (r matches Ok(c) ==> c.entries.len() <= usize::MAX) && (next == spec_finish_unlock(
            prev,
            r,
        ) || next == spec_finish_create(prev, r))
    ||| exists|status: Seq<char>, clip: Option<u64>| next == #[trigger] clipboard_report(
        prev,
        status,
        clip,
    )
}

proof fn lemma_event_keeps_settled(prev: AppView, next: AppView)
    requires
        settled(prev),
        prev.cache matches Some(c) ==> c.entries.len() < usize::MAX,
        app_event(prev, next),
    ensures
        settled(next),
        prev.mode != Mode::Locked ==> next.mode != Mode::Locked,
{
    if exists|key: Key, eff: EffectView| #[trigger]
        app_step(prev, key, next, eff) && !(eff is Persist) {
        let (key, eff) = choose|key: Key, eff: EffectView| #[trigger]
            app_step(prev, key, next, eff) && !(eff is Persist);
        lemma_key_keeps_settled(prev, key, next, eff);
    } else if exists|key: Key, mid: AppView, r: Result<(), ErrorSpec>|
        #![trigger app_step(prev, key, mid, EffectView::Persist), spec_finish_persist(mid, r)]
        app_step(prev, key, mid, EffectView::Persist) && next == spec_finish_persist(mid, r) {
        let (key, mid, r) = choose|key: Key, mid: AppView, r: Result<(), ErrorSpec>|
            #![trigger app_step(prev, key, mid, EffectView::Persist), spec_finish_persist(mid, r)]
            app_step(prev, key, mid, EffectView::Persist) && next == spec_finish_persist(mid, r);
        lemma_save_keeps_settled(prev, key, mid, r);
    } else if prev.mode == Mode::Locked && exists|r: Result<SessionView, ErrorSpec>|
        #![trigger spec_finish_unlock(prev, r)]
        #![trigger spec_finish_create(prev, r)]
        (r matches Ok(c) ==> c.entries.len() <= usize::MAX) && (next == spec_finish_unlock(
            prev,
            r,
        ) || next == spec_finish_create(prev, r)) {
        let r = choose|r: Result<SessionView, ErrorSpec>|
            #![trigger spec_finish_unlock(prev, r)]
            #![trigger spec_finish_create(prev, r)]
            (r matches Ok(c) ==> c.entries.len() <= usize::MAX) && (next == spec_finish_unlock(
                prev,
                r,
            ) || next == spec_finish_create(prev, r));
        lemma_open_keeps_settled(prev, r);
    } else {
        let (status, clip) = choose|status: Seq<char>, clip: Option<u64>| next
            == #[trigger] clipboard_report(prev, status, clip);
        lemma_clipboard_keeps_settled(prev, status, clip);
    }
}

/// Every state of a run of the program that starts settled — as
/// [`App::new`] does — is settled: whatever keys are pressed and however
/// the caller's reports come out, no change awaits saving between events, a
/// session is open exactly when unlocked, the selection and the entry of a
/// delete dialog are indices of the entries, and once unlocked the app never
/// locks again. (A session never reaches `usize::MAX` entries.)
pub proof fn lemma_run_settled(run: Seq<AppView>)
    requires
        run.len() > 0,
        settled(run[0]),
        forall|i: int| #![trigger run[i]] 0 < i < run.len() ==> app_event(run[i - 1], run[i]),
        forall|i: int|
            0 <= i < run.len() ==> ((#[trigger] run[i]).cache matches Some(c)
                ==> c.entries.len() < usize::MAX),
    ensures
        forall|i: int| 0 <= i < run.len() ==> settled(#[trigger] run[i]),
        forall|i: int, j: int|
            0 <= i <= j < run.len() && (#[trigger] run[i]).mode != Mode::Locked ==> (
            #[trigger] run[j]).mode != Mode::Locked,
    decreases run.len(),
{
    let n = run.len() as int;
    if n > 1 {
        let prefix = run.drop_last();
        assert forall|i: int| #![trigger prefix[i]] 0 < i < prefix.len() implies app_event(
            prefix[i - 1],
            prefix[i],
        ) by {
            assert(run[i] == prefix[i]);
            assert(run[i - 1] == prefix[i - 1]);
        }
        assert forall|i: int| 0 <= i < prefix.len() implies ((#[trigger] prefix[i]).cache matches Some(
            c,
        ) ==> c.entries.len() < usize::MAX) by {
            assert(run[i] == prefix[i]);
        }
        lemma_run_settled(prefix);
        assert(prefix[n - 2] == run[n - 2]);
        lemma_event_keeps_settled(run[n - 2], run[n - 1]);
        assert forall|i: int| 0 <= i < run.len() implies settled(#[trigger] run[i]) by {
            if i < n - 1 {
                assert(prefix[i] == run[i]);
            }
        }
        assert forall|i: int, j: int|
            0 <= i <= j < run.len() && (#[trigger] run[i]).mode != Mode::Locked implies (
            #[trigger] run[j]).mode != Mode::Locked by {
            if j < n - 1 {
                assert(prefix[i] == run[i]);
                assert(prefix[j] == run[j]);
            } else if i < n - 1 {
                assert(prefix[i] == run[i]);
                assert(prefix[n - 2] == run[n - 2]);
            }
        }
    }
}

/// The first position of `s` in `v`, if any.
fn position_of(v: &Vec<usize>, s: usize) -> (r: Option<usize>)
    ensures
        r matches Some(p) ==> p < v@.len() && v@[p as int] == s,
        r is None ==> !v@.contains(s),
{
    let n = v.len();
    let mut k: usize = 0;
    while k < n
        invariant
            n == v@.len(),
            forall|j: int| 0 <= j < k ==> v@[j] != s,
        decreases n - k,
    {
        if v[k] == s {
            return Some(k);
        }
        k = k + 1;
    }
    None
}

impl App {
    /// The internal consistency of the app: the session, when there is one,
    /// is consistent.
    pub closed spec fn wf(&self) -> bool {
        &&& self.cache matches Some(c) ==> c.wf()
        &&& !(self.pending is Idle) ==> self.cache is Some
        &&& self.pending is Add ==> (self.cache matches Some(c) && c@.entries.len() >= 1)
    }

    /// Whether a change awaits [`App::finish_persist`].
    pub fn has_pending_write(&self) -> (b: bool)
        ensures
            b == !(self@.pending is Idle),
    {
        match self.pending {
            PendingWrite::Idle => false,
            _ => true,
        }
    }

    /// A locked app for the vault at `vault_path`.
    pub fn new(vault_path: String) -> (app: Self)
        ensures
            app.wf(),
            settled(app@),
            app@ == (AppView {
                mode: Mode::Locked,
                cache: None,
                selected: None,
                entry: None,
                master_pass: Seq::empty(),
                username: Seq::empty(),
                password: Seq::empty(),
                description: Seq::empty(),
                focus: InputMode::Username,
                show_password: false,
                search: Seq::empty(),
                searching: false,
                status: Seq::empty(),
                clip_remaining: None,
                vault_path: vault_path@,
                quit: false,
                pending: PendingView::Idle,
            }),
    {
        App {
            mode: Mode::Locked,
            cache: None,
            selected: None,
            entry: None,
            master_pass: String::new(),
            username: String::new(),
            password: String::new(),
            description: String::new(),
            focus: InputMode::Username,
            show_password: false,
            search: String::new(),
            searching: false,
            status: String::new(),
            clip_remaining: None,
            vault_path,
            quit: false,
            pending: PendingWrite::Idle,
        }
    }

    /// Override the vault path.
    pub fn with_vault_path(self, path: &str) -> (app: Self)
        requires
            self.wf(),
        ensures
            app.wf(),
            app@ == (AppView { vault_path: path@, ..self@ }),
    {
        let mut app = self;
        app.vault_path = path.to_owned();
        app
    }

    /// Number of entries in the unlocked session (0 while locked).
    pub fn len(&self) -> (n: usize)
        requires
            self.wf(),
        ensures
            n == match self@.cache {
                Some(c) => c.entries.len(),
                None => 0,
            },
    {
        match &self.cache {
            Some(c) => c.len(),
            None => 0,
        }
    }

    /// Whether there are no entries (always true while locked).
    pub fn is_empty(&self) -> (b: bool)
        requires
            self.wf(),
        ensures
            b == match self@.cache {
                Some(c) => c.entries.len() == 0,
                None => true,
            },
    {
        match &self.cache {
            Some(c) => c.is_empty(),
            None => true,
        }
    }

    /// Overwrite the secrets the app holds in memory — the master password,
    /// the form fields, the viewed entry and the session's key, names and
    /// cached entries — before the program exits.
    pub fn wipe_secrets(&mut self)
        ensures
            final(self)@ == (AppView {
                master_pass: Seq::empty(),
                username: Seq::empty(),
                password: Seq::empty(),
                description: Seq::empty(),
                entry: None,
                cache: match old(self)@.cache {
                    Some(c) => Some(SessionView { key: Seq::new(KEY_LEN as nat, |i: int| 0u8), ..c }),
                    None => None,
                },
                ..old(self)@
            }),
            final(self).cache matches Some(c) ==> c.secrets_wiped(),
    {
        wipe_string(&mut self.master_pass);
        wipe_string(&mut self.username);
        wipe_string(&mut self.password);
        wipe_string(&mut self.description);
        let mut viewed: Option<Entry> = None;
        std::mem::swap(&mut viewed, &mut self.entry);
        match viewed {
            Some(mut e) => e.wipe(),
            None => {},
        }
        match &mut self.cache {
            Some(cache) => cache.wipe(),
            None => {},
        }
    }

    // ── Search / selection helpers ─────────────────────────────────────────

    /// Indices of the entries that match the current search filter, in
    /// increasing order.
    pub fn visible_indices(&self) -> (r: Vec<usize>)
        requires
            self.wf(),
        ensures
            r@ == spec_visible(self@),
            forall|a: int, b: int| 0 <= a < b < r@.len() ==> r@[a] < r@[b],
            forall|k: int|
                0 <= k < r@.len() ==> (self@.cache matches Some(c) && #[trigger] r@[k]
                    < c.entries.len()),
            self@.search.len() == 0 ==> (self@.cache matches Some(c) ==> r@ == Seq::new(
                c.entries.len(),
                |i: int| i as usize,
            )),
            is_ascii_text(self@.search) ==> (self@.cache matches Some(c) ==> r@ == visible_upto(
                spec_usernames(c),
                ascii_lowercase(self@.search),
                c.entries.len(),
            )),
    {
        let query = to_lowercase(self.search.as_str());
        proof {
            if self.search@.len() == 0 {
                assert(query@ =~= Seq::<char>::empty());
                assert(ascii_lowercase(self.search@) =~= Seq::<char>::empty());
            }
        }
        match &self.cache {
            None => Vec::new(),
            Some(c) => {
                let names = c.usernames();
                let n = names.len();
                let mut r: Vec<usize> = Vec::new();
                for i in 0..n
                    invariant
                        n == names@.len(),
                        n == c@.entries.len(),
                        query@ == search_query(self.search@),
                        is_ascii_text(self.search@) ==> query@ == ascii_lowercase(self.search@),
                        forall|j: int| 0 <= j < n ==> (#[trigger] names@[j])@ == spec_usernames(c@)[j],
                        r@ == visible_upto(spec_usernames(c@), query@, i as nat),
                {
                    let lower = to_lowercase(names[i].as_str());
                    if query.as_str().is_empty() || contains_str(lower.as_str(), query.as_str()) {
                        r.push(i);
                    }
                }
                proof {
                    lemma_visible_upto(spec_usernames(c@), query@, n as nat);
                    if self.search@.len() == 0 {
                        lemma_visible_all(spec_usernames(c@), n as nat);
                    }
                }
                r
            },
        }
    }

    /// Move the selection within the currently visible entries, wrapping.
    fn move_selection(&mut self, dir: i32)
        requires
            old(self).wf(),
            dir == 1 || dir == -1,
        ensures
            final(self).wf(),
            final(self)@ == spec_move_selection(old(self)@, dir as int),
    {
        let visible = self.visible_indices();
        if visible.len() == 0 {
            return;
        }
        let n = visible.len();
        let pos = match self.selected {
            Some(s) => position_of(&visible, s),
            None => None,
        };
        proof {
            let ghost vis = visible@;
            if let Some(s) = self.selected {
                if let Some(p) = pos {
                    assert(vis.contains(s));
                    let q = visible_position(vis, s);
                    assert(q == p) by {
                        if q < p {
                            assert(vis[q] < vis[p as int]);
                        } else if q > p {
                            assert(vis[p as int] < vis[q]);
                        }
                    }
                }
            }
        }
        let next = match pos {
            None => 0,
            Some(i) => if dir < 0 {
                if i == 0 {
                    n - 1
                } else {
                    i - 1
                }
            } else {
                if i + 1 < n {
                    i + 1
                } else {
                    0
                }
            },
        };
        proof {
            if let Some(i) = pos {
                if dir >= 0 {
                    assert((i + 1) % (n as int) == next) by (nonlinear_arith)
                        requires
                            0 <= i < n,
                            next == if i + 1 < n { i + 1 } else { 0 },
                    ;
                } else if i > 0 {
                    assert((i - 1) % (n as int) == i - 1) by (nonlinear_arith)
                        requires
                            0 < i < n,
                    ;
                }
            }
        }
        self.selected = Some(visible[next]);
    }

    /// Make the selection point at a visible entry (after filtering or
    /// deleting).
    fn clamp_selection(&mut self)
        requires
            old(self).wf(),
        ensures
            final(self).wf(),
            final(self)@ == spec_clamp_selection(old(self)@),
    {
        let visible = self.visible_indices();
        if visible.len() == 0 {
            self.selected = None;
            return;
        }
        let found = match self.selected {
            Some(s) => position_of(&visible, s).is_some(),
            None => false,
        };
        if !found {
            self.selected = Some(visible[0]);
        }
    }

    /// The names shown in the sidebar: the usernames of the visible entries,
    /// in order.
    pub fn visible_names(&self) -> (names: Vec<String>)
        requires
            self.wf(),
        ensures
            names@.len() == spec_visible(self@).len(),
            forall|k: int|
                0 <= k < names@.len() ==> (#[trigger] names@[k])@ == spec_usernames(
                    self@.cache->0,
                )[spec_visible(self@)[k] as int],
    {
        let visible = self.visible_indices();
        let mut names: Vec<String> = Vec::new();
        match &self.cache {
            None => {},
            Some(c) => {
                let all = c.usernames();
                let n = visible.len();
                for k in 0..n
                    invariant
                        n == visible@.len(),
                        visible@ == spec_visible(self@),
                        self@.cache == Some(c@),
                        all@.len() == c@.entries.len(),
                        forall|j: int| 0 <= j < all@.len() ==> (#[trigger] all@[j])@ == spec_usernames(c@)[j],
                        forall|j: int| 0 <= j < n ==> (#[trigger] visible@[j]) < all@.len(),
                        names@.len() == k,
                        forall|j: int|
                            0 <= j < k ==> (#[trigger] names@[j])@ == spec_usernames(c@)[visible@[j] as int],
                {
                    names.push(all[visible[k]].clone());
                }
            },
        }
        names
    }

    /// The position of the selected entry in the sidebar, if it is shown.
    pub fn selected_position(&self) -> (p: Option<usize>)
        requires
            self.wf(),
        ensures
            p matches Some(k) ==> k < spec_visible(self@).len() && self@.selected == Some(
                spec_visible(self@)[k as int],
            ),
            p is None ==> (self@.selected matches Some(s) ==> !spec_visible(self@).contains(s)),
    {
        let visible = self.visible_indices();
        match self.selected {
            None => None,
            Some(s) => {
                let n = visible.len();
                let mut k: usize = 0;
                while k < n
                    invariant
                        n == visible@.len(),
                        visible@ == spec_visible(self@),
                        self@.selected == Some(s),
                        forall|j: int| 0 <= j < k ==> visible@[j] != s,
                    decreases n - k,
                {
                    if visible[k] == s {
                        return Some(k);
                    }
                    k = k + 1;
                }
                None
            },
        }
    }

    /// The username of the entry at `i`, or the empty string when there is
    /// no such entry.
    pub fn username_at(&self, i: usize) -> (name: String)
        requires
            self.wf(),
        ensures
            name@ == match self@.cache {
                Some(c) => if i < c.entries.len() {
                    spec_usernames(c)[i as int]
                } else {
                    Seq::empty()
                },
                None => Seq::empty(),
            },
    {
        match &self.cache {
            Some(c) => {
                let all = c.usernames();
                if i < all.len() {
                    all[i].clone()
                } else {
                    String::new()
                }
            },
            None => String::new(),
        }
    }

    // ── Clipboard ──────────────────────────────────────────────────────────

    /// Update the clipboard countdown given the whole seconds elapsed since
    /// the last successful copy (`None` when nothing is on the clipboard).
    /// Returns `true` when the timeout has passed: the caller then clears the
    /// clipboard and forgets the copy time.
    pub fn maybe_clear_clipboard(&mut self, elapsed_secs: Option<u64>) -> (clear: bool)
        requires
            old(self).wf(),
        ensures
            final(self).wf(),
            clear == (elapsed_secs matches Some(t) && t >= CLIP_TIMEOUT_SECS),
            clear ==> final(self)@ == (AppView {
                clip_remaining: None,
                status: "clipboard cleared"@,
                ..old(self)@
            }),
            !clear ==> final(self)@ == (AppView {
                clip_remaining: match elapsed_secs {
                    Some(t) => Some((CLIP_TIMEOUT_SECS - t) as u64),
                    None => None,
                },
                ..old(self)@
            }),
    {
        match elapsed_secs {
            Some(t) => if t >= CLIP_TIMEOUT_SECS {
                self.clip_remaining = None;
                self.status = String::from_str("clipboard cleared");
                true
            } else {
                self.clip_remaining = Some(CLIP_TIMEOUT_SECS - t);
                false
            },
            None => {
                self.clip_remaining = None;
                false
            },
        }
    }

    /// Report whether the clipboard accepted the text of an
    /// [`Effect::Copy`]. On success the caller starts the countdown.
    pub fn finish_copy(&mut self, copied: bool)
        requires
            old(self).wf(),
        ensures
            final(self).wf(),
            copied ==> final(self)@ == (AppView {
                clip_remaining: Some(CLIP_TIMEOUT_SECS),
                status: "copied — clears in 30s"@,
                ..old(self)@
            }),
            !copied ==> final(self)@ == (AppView {
                status: "clipboard unavailable"@,
                ..old(self)@
            }),
    {
        if copied {
            self.clip_remaining = Some(CLIP_TIMEOUT_SECS);
            self.status = String::from_str("copied — clears in 30s");
        } else {
            self.status = String::from_str("clipboard unavailable");
        }
    }
    // ── Entry points ───────────────────────────────────────────────────────

    /// Handle a single key press. The returned [`Effect`] is the work the
    /// caller performs next.
    pub fn handle_key(&mut self, key: Key) -> (eff: Effect)
        requires
            old(self).wf(),
        ensures
            final(self).wf(),
            app_step(old(self)@, key, final(self)@, eff@),
    {
        match self.mode {
            Mode::Locked => self.handle_locked(key),
            Mode::Browse => self.handle_browse(key),
            Mode::View => self.handle_view(key),
            Mode::Add => self.handle_add(key),
            Mode::Edit => self.handle_edit(key),
            Mode::ConfirmDelete(i) => self.handle_confirm_delete(key, i),
        }
    }

    // ── Locked ─────────────────────────────────────────────────────────────

    fn handle_locked(&mut self, key: Key) -> (eff: Effect)
        requires
            old(self).wf(),
        ensures
            final(self).wf(),
            (final(self)@, eff@) == spec_locked(old(self)@, key),
    {
        match key {
            Key::Esc => {
                self.quit = true;
                Effect::Nothing
            },
            Key::Char(c) => {
                push_char(&mut self.master_pass, c);
                Effect::Nothing
            },
            Key::Backspace => {
                pop_char(&mut self.master_pass);
                Effect::Nothing
            },
            Key::Enter => if self.master_pass.as_str().is_empty() {
                Effect::Nothing
            } else {
                Effect::OpenVault
            },
            _ => Effect::Nothing,
        }
    }

    /// Report how opening the existing vault asked for by
    /// [`Effect::OpenVault`] went. The master password is wiped either way.
    pub fn finish_unlock(&mut self, result: Result<SessionCache, Error>)
        requires
            old(self).wf(),
            old(self)@.pending is Idle,
            result matches Ok(c) ==> c.wf(),
        ensures
            final(self).wf(),
            final(self)@ == spec_finish_unlock(
                old(self)@,
                match result {
                    Ok(c) => Ok(c@),
                    Err(e) => Err(e@),
                },
            ),
    {
        match result {
            Ok(cache) => {
                let n = cache.len();
                let status = decimal(n as u64).concat(" entr").concat(
                    if n == 1 {
                        "y"
                    } else {
                        "ies"
                    },
                ).concat(" loaded");
                self.cache = Some(cache);
                self.status = status;
                self.selected = if n > 0 {
                    Some(0)
                } else {
                    None
                };
                self.mode = Mode::Browse;
            },
            Err(e) => {
                self.status = String::from_str("unlock failed: ").concat(e.message().as_str());
            },
        }
        wipe_string(&mut self.master_pass);
    }

    /// Report how creating the new vault asked for by [`Effect::OpenVault`]
    /// went. The master password is wiped either way.
    pub fn finish_create(&mut self, result: Result<SessionCache, Error>)
        requires
            old(self).wf(),
            old(self)@.pending is Idle,
            result matches Ok(c) ==> c.wf(),
        ensures
            final(self).wf(),
            final(self)@ == spec_finish_create(
                old(self)@,
                match result {
                    Ok(c) => Ok(c@),
                    Err(e) => Err(e@),
                },
            ),
    {
        match result {
            Ok(cache) => {
                self.cache = Some(cache);
                self.status = String::from_str("new vault created — press a to add entries");
                self.mode = Mode::Browse;
            },
            Err(e) => {
                self.status = String::from_str("create failed: ").concat(e.message().as_str());
            },
        }
        wipe_string(&mut self.master_pass);
    }

    // ── Browse ─────────────────────────────────────────────────────────────

    fn handle_browse(&mut self, key: Key) -> (eff: Effect)
        requires
            old(self).wf(),
        ensures
            final(self).wf(),
            (final(self)@, eff@) == spec_browse(old(self)@, key),
    {
        if self.search_input(key) {
            return Effect::Nothing;
        }
        match key {
            Key::Esc => self.quit = true,
            Key::Char('/') => self.searching = true,
            Key::Char('a') | Key::Char('A') => self.start_add(),
            Key::Char('d') | Key::Char('D') => self.ask_delete(),
            Key::Enter => {
                if let Some(i) = self.selected {
                    self.open_entry(i);
                }
            },
            Key::Up => self.move_selection(-1),
            Key::Down => self.move_selection(1),
            _ => {},
        }
        Effect::Nothing
    }

    // ── View ───────────────────────────────────────────────────────────────

    fn handle_view(&mut self, key: Key) -> (eff: Effect)
        requires
            old(self).wf(),
        ensures
            final(self).wf(),
            (final(self)@, eff@) == spec_view(old(self)@, key),
    {
        if self.search_input(key) {
            return Effect::Nothing;
        }
        match key {
            Key::Esc => {
                self.entry = None;
                self.show_password = false;
                self.mode = Mode::Browse;
                Effect::Nothing
            },
            Key::Space => {
                self.show_password = !self.show_password;
                Effect::Nothing
            },
            Key::Char('c') | Key::Char('C') => match &self.entry {
                Some(e) => Effect::Copy(e.password.clone()),
                None => Effect::Nothing,
            },
            Key::Char('u') | Key::Char('U') => match &self.entry {
                Some(e) => Effect::Copy(e.username.clone()),
                None => Effect::Nothing,
            },
            Key::Char('d') | Key::Char('D') => {
                self.ask_delete();
                Effect::Nothing
            },
            Key::Right => {
                self.start_edit();
                Effect::Nothing
            },
            Key::Up => {
                self.move_selection(-1);
                self.refresh_entry();
                Effect::Nothing
            },
            Key::Down => {
                self.move_selection(1);
                self.refresh_entry();
                Effect::Nothing
            },
            Key::Char('/') => {
                self.searching = true;
                Effect::Nothing
            },
            _ => Effect::Nothing,
        }
    }

    // ── Add ────────────────────────────────────────────────────────────────

    fn handle_add(&mut self, key: Key) -> (eff: Effect)
        requires
            old(self).wf(),
        ensures
            final(self).wf(),
            add_step(old(self)@, key, final(self)@, eff@),
    {
        match key {
            Key::Esc => {
                self.show_password = false;
                self.mode = Mode::Browse;
                Effect::Nothing
            },
            Key::Enter => self.commit_add(),
            Key::Ctrl('g') | Key::Ctrl('G') => {
                self.generate_password();
                Effect::Nothing
            },
            _ => {
                self.form_key(key);
                Effect::Nothing
            },
        }
    }

    // ── Edit ───────────────────────────────────────────────────────────────

    fn handle_edit(&mut self, key: Key) -> (eff: Effect)
        requires
            old(self).wf(),
        ensures
            final(self).wf(),
            edit_step(old(self)@, key, final(self)@, eff@),
    {
        match key {
            Key::Esc => {
                self.cancel_edit();
                Effect::Nothing
            },
            Key::Enter => self.commit_edit(),
            Key::Ctrl('g') | Key::Ctrl('G') => {
                self.generate_password();
                Effect::Nothing
            },
            _ => {
                self.form_key(key);
                Effect::Nothing
            },
        }
    }

    // ── Search input ───────────────────────────────────────────────────────

    /// Handle search-mode input. Returns `true` if the key was consumed.
    fn search_input(&mut self, key: Key) -> (consumed: bool)
        requires
            old(self).wf(),
        ensures
            final(self).wf(),
            consumed == old(self)@.searching,
            consumed ==> final(self)@ == spec_search_key(old(self)@, key),
            !consumed ==> final(self)@ == old(self)@,
    {
        if !self.searching {
            return false;
        }
        match key {
            Key::Esc => {
                self.searching = false;
                self.search = String::new();
            },
            Key::Enter => self.searching = false,
            Key::Backspace => {
                pop_char(&mut self.search);
            },
            Key::Space => push_char(&mut self.search, ' '),
            Key::Char(c) => push_char(&mut self.search, c),
            _ => {},
        }
        self.clamp_selection();
        true
    }

    // ── Form helpers (Add & Edit share these) ──────────────────────────────

    fn form_key(&mut self, key: Key)
        requires
            old(self).wf(),
        ensures
            final(self).wf(),
            final(self)@ == spec_form_key(old(self)@, key),
    {
        match key {
            Key::Tab => self.focus = self.focus.next(),
            Key::Backspace => self.edit_backspace(),
            Key::Space => self.edit_space(),
            Key::Char(c) => self.edit_char(c),
            _ => {},
        }
    }

    fn edit_char(&mut self, c: char)
        requires
            old(self).wf(),
        ensures
            final(self).wf(),
            final(self)@ == spec_edit_char(old(self)@, c),
    {
        match self.focus {
            InputMode::Username => push_char(&mut self.username, c),
            InputMode::Password => push_char(&mut self.password, c),
            InputMode::Description => push_char(&mut self.description, c),
        }
    }

    fn edit_backspace(&mut self)
        requires
            old(self).wf(),
        ensures
            final(self).wf(),
            final(self)@ == spec_edit_backspace(old(self)@),
    {
        match self.focus {
            InputMode::Username => {
                pop_char(&mut self.username);
            },
            InputMode::Password => {
                pop_char(&mut self.password);
            },
            InputMode::Description => {
                pop_char(&mut self.description);
            },
        }
    }

    fn edit_space(&mut self)
        requires
            old(self).wf(),
        ensures
            final(self).wf(),
            final(self)@ == spec_edit_space(old(self)@),
    {
        if self.focus == InputMode::Password {
            self.show_password = !self.show_password;
        } else {
            self.edit_char(' ');
        }
    }

    fn generate_password(&mut self)
        requires
            old(self).wf(),
        ensures
            final(self).wf(),
            generate_step(old(self)@, final(self)@),
    {
        self.password = generate_password();
        self.show_password = true;
        self.status = String::from_str("password generated — space to hide");
    }

    // ── Transitions ────────────────────────────────────────────────────────

    fn start_add(&mut self)
        requires
            old(self).wf(),
        ensures
            final(self).wf(),
            final(self)@ == spec_start_add(old(self)@),
    {
        self.username = String::new();
        self.password = String::new();
        self.description = String::new();
        self.focus = InputMode::Username;
        self.show_password = false;
        self.status = String::new();
        self.mode = Mode::Add;
    }

    fn ask_delete(&mut self)
        requires
            old(self).wf(),
        ensures
            final(self).wf(),
            final(self)@ == spec_ask_delete(old(self)@),
    {
        if let Some(i) = self.selected {
            self.mode = Mode::ConfirmDelete(i);
        }
    }

    fn open_entry(&mut self, i: usize)
        requires
            old(self).wf(),
        ensures
            final(self).wf(),
            final(self)@ == spec_open_entry(old(self)@, i),
    {
        match &mut self.cache {
            Some(cache) => {
                if let Some(e) = cache.get_entry(i) {
                    self.entry = Some(e);
                    self.show_password = false;
                    self.mode = Mode::View;
                }
            },
            None => {},
        }
    }

    fn refresh_entry(&mut self)
        requires
            old(self).wf(),
        ensures
            final(self).wf(),
            final(self)@ == spec_refresh_entry(old(self)@),
    {
        if let Some(i) = self.selected {
            match &mut self.cache {
                Some(cache) => {
                    self.entry = cache.get_entry(i);
                    self.show_password = false;
                },
                None => {},
            }
        }
    }

    fn start_edit(&mut self)
        requires
            old(self).wf(),
        ensures
            final(self).wf(),
            final(self)@ == spec_start_edit(old(self)@),
    {
        match &self.entry {
            Some(e) => {
                let username = e.username.clone();
                let password = e.password.clone();
                let description = e.description.clone();
                self.username = username;
                self.password = password;
                self.description = description;
                self.focus = InputMode::Username;
                self.show_password = false;
                self.status = String::new();
                self.mode = Mode::Edit;
            },
            None => {},
        }
    }

    fn cancel_edit(&mut self)
        requires
            old(self).wf(),
        ensures
            final(self).wf(),
            final(self)@ == spec_cancel_edit(old(self)@),
    {
        self.refresh_entry();
        self.show_password = false;
        self.mode = Mode::View;
    }

    fn commit_add(&mut self) -> (eff: Effect)
        requires
            old(self).wf(),
        ensures
            final(self).wf(),
            commit_add_step(old(self)@, final(self)@, eff@),
    {
        if self.username.as_str().is_empty() {
            self.status = String::from_str("username cannot be empty");
            return Effect::Nothing;
        }
        let new_entry = Entry::new(
            self.username.as_str(),
            self.password.as_str(),
            self.description.as_str(),
        );
        match &mut self.cache {
            Some(cache) => {
                let before = cache.snapshot();
                match cache.add_entry(&new_entry) {
                    Ok(()) => {
                        self.pending = PendingWrite::Add(before);
                        Effect::Persist
                    },
                    Err(e) => {
                        self.status = String::from_str("save error: ").concat(
                            e.message().as_str(),
                        );
                        Effect::Nothing
                    },
                }
            },
            None => Effect::Nothing,
        }
    }

    fn commit_edit(&mut self) -> (eff: Effect)
        requires
            old(self).wf(),
        ensures
            final(self).wf(),
            commit_edit_step(old(self)@, final(self)@, eff@),
    {
        if self.username.as_str().is_empty() {
            self.status = String::from_str("username cannot be empty");
            return Effect::Nothing;
        }
        let i = match self.selected {
            Some(i) => i,
            None => { return Effect::Nothing; },
        };
        let updated = Entry::new(
            self.username.as_str(),
            self.password.as_str(),
            self.description.as_str(),
        );
        match &mut self.cache {
            Some(cache) => {
                let before = cache.snapshot();
                match cache.update_entry(i, &updated) {
                    Ok(()) => {
                        self.pending = PendingWrite::Edit(updated, before);
                        Effect::Persist
                    },
                    Err(e) => {
                        self.status = String::from_str("save error: ").concat(
                            e.message().as_str(),
                        );
                        Effect::Nothing
                    },
                }
            },
            None => Effect::Nothing,
        }
    }

    fn handle_confirm_delete(&mut self, key: Key, i: usize) -> (eff: Effect)
        requires
            old(self).wf(),
        ensures
            final(self).wf(),
            confirm_delete_step(old(self)@, i, key, final(self)@, eff@),
    {
        match key {
            Key::Char('y') | Key::Char('Y') => self.do_delete(i),
            _ => {
                self.mode = Mode::Browse;
                self.status = String::from_str("delete cancelled");
                Effect::Nothing
            },
        }
    }

    fn leave_delete(&mut self)
        requires
            old(self).wf(),
        ensures
            final(self).wf(),
            final(self)@ == spec_after_delete(old(self)@),
    {
        self.entry = None;
        self.show_password = false;
        self.mode = Mode::Browse;
        self.clamp_selection();
    }

    fn do_delete(&mut self, i: usize) -> (eff: Effect)
        requires
            old(self).wf(),
        ensures
            final(self).wf(),
            delete_step(old(self)@, i, final(self)@, eff@),
    {
        match &mut self.cache {
            Some(cache) => {
                let before = cache.snapshot();
                match cache.delete_entry(i) {
                    Ok(()) => {
                        self.pending = PendingWrite::Delete(before);
                        Effect::Persist
                    },
                    Err(e) => {
                        self.status = String::from_str("delete failed: ").concat(
                            e.message().as_str(),
                        );
                        self.leave_delete();
                        Effect::Nothing
                    },
                }
            },
            None => {
                self.leave_delete();
                Effect::Nothing
            },
        }
    }

    /// Put the session's encrypted entries back to `before`.
    fn restore_entries(&mut self, before: Vec<EncryptedEntry>)
        requires
            old(self).wf(),
            old(self)@.pending is Idle,
        ensures
            final(self).wf(),
            final(self)@ == (AppView {
                cache: with_entries(old(self)@.cache, entries_view(before@)),
                ..old(self)@
            }),
    {
        match &mut self.cache {
            Some(cache) => cache.restore(before),
            None => {},
        }
    }

    /// Report how persisting the change asked for by [`Effect::Persist`] went.
    /// When it failed, the change is undone in the session too.
    pub fn finish_persist(&mut self, result: Result<(), Error>)
        requires
            old(self).wf(),
        ensures
            final(self).wf(),
            final(self)@ == spec_finish_persist(
                old(self)@,
                match result {
                    Ok(_) => Ok(()),
                    Err(e) => Err(e@),
                },
            ),
    {
        let mut pending = PendingWrite::Idle;
        std::mem::swap(&mut pending, &mut self.pending);
        match pending {
            PendingWrite::Idle => {},
            PendingWrite::Add(before) => match result {
                Ok(()) => {
                    let n = self.len();
                    let status = String::from_str("saved — ").concat(decimal(n as u64).as_str()).concat(
                        " entr",
                    ).concat(
                        if n == 1 {
                            "y"
                        } else {
                            "ies"
                        },
                    );
                    self.selected = Some(n - 1);
                    self.status = status;
                    self.username = String::new();
                    self.password = String::new();
                    self.description = String::new();
                    self.show_password = false;
                    self.focus = InputMode::Username;
                    self.mode = Mode::Browse;
                },
                Err(e) => {
                    self.restore_entries(before);
                    self.status = String::from_str("save error: ").concat(e.message().as_str());
                },
            },
            PendingWrite::Edit(updated, before) => match result {
                Ok(()) => {
                    self.entry = Some(updated);
                    self.status = String::from_str("entry updated");
                    self.show_password = false;
                    self.mode = Mode::View;
                },
                Err(e) => {
                    self.restore_entries(before);
                    self.status = String::from_str("save error: ").concat(e.message().as_str());
                },
            },
            PendingWrite::Delete(before) => {
                match result {
                    Ok(()) => self.status = String::from_str("entry deleted"),
                    Err(e) => {
                        self.restore_entries(before);
                        self.status = String::from_str("delete failed: ").concat(
                            e.message().as_str(),
                        );
                    },
                }
                self.leave_delete();
            },
        }
    }
}

} // verus!
