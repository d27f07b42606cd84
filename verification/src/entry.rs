//! Plaintext entry model.

use vstd::prelude::*;

use crate::text::wipe_string;

verus! {

/// A single stored credential. Fields are plaintext only while in memory.
#[derive(Debug, PartialEq, Eq)]
pub struct Entry {
    pub username: String,
    pub password: String,
    pub description: String,
}

/// The mathematical value of an [`Entry`].
pub struct EntryView {
    pub username: Seq<char>,
    pub password: Seq<char>,
    pub description: Seq<char>,
}

impl View for Entry {
    type V = EntryView;

    open spec fn view(&self) -> EntryView {
        EntryView {
            username: self.username@,
            password: self.password@,
            description: self.description@,
        }
    }
}

impl Entry {
    pub fn new(username: &str, password: &str, description: &str) -> (e: Self)
        ensures
            e.username@ == username@,
            e.password@ == password@,
            e.description@ == description@,
    {
        Entry {
            username: username.to_owned(),
            password: password.to_owned(),
            description: description.to_owned(),
        }
    }

    /// Overwrite the three fields with zeros, leaving them empty.
    pub fn wipe(&mut self)
        ensures
            final(self)@.username.len() == 0,
            final(self)@.password.len() == 0,
            final(self)@.description.len() == 0,
    {
        wipe_string(&mut self.username);
        wipe_string(&mut self.password);
        wipe_string(&mut self.description);
    }

    /// A field-by-field copy of this entry.
    pub fn duplicate(&self) -> (e: Self)
        ensures
            e@ == self@,
    {
        Entry {
            username: self.username.clone(),
            password: self.password.clone(),
            description: self.description.clone(),
        }
    }
}

impl Clone for Entry {
    fn clone(&self) -> (e: Self)
        ensures
            e@ == self@,
    {
        self.duplicate()
    }
}

} // verus!
