//! Clipboard abstraction, so the interface logic needs no display.

use vstd::prelude::*;

verus! {

/// Minimal clipboard backend.
pub trait Clipboard {
    fn set_text(&mut self, text: &str) -> Result<(), String>;

    /// Overwrite the clipboard with the empty string, ignoring failure.
    fn clear(&mut self) {
        let _ = self.set_text("");
    }
}

/// Clipboard that always fails — for tests and headless environments.
#[derive(Default)]
pub struct NullClipboard;

impl Clipboard for NullClipboard {
    fn set_text(&mut self, _text: &str) -> (r: Result<(), String>)
        ensures
            r matches Err(m) && m@ == "clipboard unavailable"@,
    {
        Err(String::from_str("clipboard unavailable"))
    }
}

} // verus!
