//! The note record and its mathematical value.

use vstd::prelude::*;

verus! {

/// The value of a note record: its text and its lock flag.
pub ghost struct NoteView {
    pub content: Seq<char>,
    pub is_locked: bool,
}

/// One stored note: free text, and a lock flag that is kept but never acted on.
#[derive(Debug, PartialEq, Eq)]
pub struct TimeNote {
    pub content: String,
    pub is_locked: bool,
}

impl View for TimeNote {
    type V = NoteView;

    open spec fn view(&self) -> NoteView {
        NoteView { content: self.content@, is_locked: self.is_locked }
    }
}

impl Clone for TimeNote {
    fn clone(&self) -> (r: Self)
        ensures
            r@ == self@,
    {
        TimeNote { content: self.content.clone(), is_locked: self.is_locked }
    }
}

impl TimeNote {
    /// A fresh, unlocked note with the given text.
    pub fn new(content: String) -> (r: Self)
        ensures
            r@ == (NoteView { content: content@, is_locked: false }),
    {
        TimeNote { content, is_locked: false }
    }
}

} // verus!
