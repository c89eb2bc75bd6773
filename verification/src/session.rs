//! The editing session: which hour is open in the editor, whether a save was
//! just confirmed, and the notes themselves. Each event of the interface is
//! answered by the next state and by what the caller has to carry out.

use crate::key::{date_shaped, local_date_text, note_key, note_key_text};
use crate::store::{restored, written, NoteMap, NoteStore, Snapshot};
use vstd::prelude::*;
use vstd::string::*;

verus! {

/// How long a save stays confirmed on screen, in seconds.
pub const CONFIRMATION_SECS: u64 = 2;

/// What the interface reports.
#[derive(Debug)]
pub enum Event {
    /// The marker of an hour was clicked.
    HourSelected(u32),
    /// The editor was dismissed.
    EditorClosed,
    /// The text in the editor changed; the new text is given in full.
    ContentTyped(String),
    /// The user asked for the notes to be saved.
    SaveRequested,
    /// The time for which a save stays confirmed has run out.
    ConfirmationExpired,
}

/// What the caller has to carry out after an event.
#[derive(Clone, Copy, Debug, PartialEq, Eq)]
pub enum Action {
    /// Nothing.
    Nothing,
    /// Write all notes out, in place of what was kept before.
    Persist,
    /// Write all notes out, and report `ConfirmationExpired` once
    /// `CONFIRMATION_SECS` have passed.
    PersistAndConfirm,
}

/// The value of a session.
pub ghost struct SessionView {
    pub notes: NoteMap,
    pub selected_hour: Option<u32>,
    pub save_confirmed: bool,
}

/// The state of the interface between two events.
#[derive(Debug)]
pub struct Session {
    /// The notes.
    pub notes: NoteStore,
    /// The hour whose note is open in the editor, if the editor is open.
    pub selected_hour: Option<u32>,
    /// Whether the confirmation of a save is on screen.
    pub save_confirmed: bool,
}

/// The session after `event`, where `today` is the current date as the keys
/// write it. Typed text goes to the note of the open hour on that date; with
/// the editor closed there is no such note and nothing changes.
pub open spec fn next_state(s: SessionView, event: Event, today: Seq<char>) -> SessionView {
    match event {
        Event::HourSelected(hour) => SessionView { selected_hour: Some(hour), ..s },
        Event::EditorClosed => SessionView { selected_hour: None, ..s },
        Event::ContentTyped(text) => match s.selected_hour {
            Some(hour) => SessionView {
                notes: written(s.notes, note_key_text(today, hour as nat), text@),
                ..s
            },
            None => s,
        },
        Event::SaveRequested => SessionView { save_confirmed: true, ..s },
        Event::ConfirmationExpired => SessionView { save_confirmed: false, ..s },
    }
}

/// Whether the answer to `event` depends on the date: only text typed with
/// the editor open is filed under a date.
pub open spec fn needs_date(s: SessionView, event: Event) -> bool {
    event is ContentTyped && s.selected_hour.is_some()
}

/// What has to be carried out after `event`: the notes are written out after
/// every change to them and on every request to save.
pub open spec fn next_action(s: SessionView, event: Event) -> Action {
    match event {
        Event::ContentTyped(_) => if s.selected_hour.is_some() {
            Action::Persist
        } else {
            Action::Nothing
        },
        Event::SaveRequested => Action::PersistAndConfirm,
        _ => Action::Nothing,
    }
}

/// The number shown for an hour on a twelve-hour face: twelve for hour zero,
/// the hour itself otherwise.
pub open spec fn face_number(hour: u32) -> u32 {
    if hour == 0 {
        12
    } else {
        hour
    }
}

/// The number shown for an hour on a twelve-hour face.
pub fn display_hour(hour: u32) -> (r: u32)
    ensures
        r == face_number(hour),
{
    if hour == 0 {
        12
    } else {
        hour
    }
}

impl View for Session {
    type V = SessionView;

    open spec fn view(&self) -> SessionView {
        SessionView {
            notes: self.notes@,
            selected_hour: self.selected_hour,
            save_confirmed: self.save_confirmed,
        }
    }
}

impl Session {
    /// The session is well formed: its store is.
    pub open spec fn wf(&self) -> bool {
        self.notes.wf()
    }

    /// Starts a session on what was found where the notes are kept: the
    /// editor is closed and no save is confirmed.
    pub fn start(snapshot: &Snapshot) -> (r: Self)
        ensures
            r.wf(),
            r@ == (SessionView {
                notes: restored(*snapshot),
                selected_hour: None,
                save_confirmed: false,
            }),
    {
        Session { notes: NoteStore::load(snapshot), selected_hour: None, save_confirmed: false }
    }

    /// The number in the editor's heading: that of the open hour on a
    /// twelve-hour face, and zero while the editor is closed.
    pub fn editor_hour(&self) -> (r: u32)
        ensures
            r == match self.selected_hour {
                Some(hour) => face_number(hour),
                None => 0,
            },
    {
        match self.selected_hour {
            Some(hour) => display_hour(hour),
            None => 0,
        }
    }

    /// Answers `event` on the day written as `today`: moves the session to
    /// its next state and says what the caller has to carry out.
    pub fn apply(&mut self, event: Event, today: &str) -> (action: Action)
        requires
            old(self).wf(),
        ensures
            final(self).wf(),
            final(self)@ == next_state(old(self)@, event, today@),
            action == next_action(old(self)@, event),
    {
        match event {
            Event::HourSelected(hour) => {
                self.selected_hour = Some(hour);
                Action::Nothing
            },
            Event::EditorClosed => {
                self.selected_hour = None;
                Action::Nothing
            },
            Event::ContentTyped(text) => match self.selected_hour {
                Some(hour) => {
                    let key = note_key(today, hour);
                    self.notes.put(key, text);
                    Action::Persist
                },
                None => Action::Nothing,
            },
            Event::SaveRequested => {
                self.save_confirmed = true;
                Action::PersistAndConfirm
            },
            Event::ConfirmationExpired => {
                self.save_confirmed = false;
                Action::Nothing
            },
        }
    }

    /// Answers `event` as `apply` does, on the current local date. The clock
    /// is read only where the date is needed, for text typed with the editor
    /// open; the session then moves as `apply` moves it for the date that
    /// the clock gave. Every other event is answered without a date.
    pub fn handle(&mut self, event: Event) -> (action: Action)
        requires
            old(self).wf(),
        ensures
            final(self).wf(),
            needs_date(old(self)@, event) ==> exists|today: Seq<char>|
                date_shaped(today) && final(self)@ == next_state(old(self)@, event, today),
            !needs_date(old(self)@, event) ==> final(self)@ == next_state(
                old(self)@,
                event,
                Seq::empty(),
            ),
            action == next_action(old(self)@, event),
    {
        let typed = match &event {
            Event::ContentTyped(_) => true,
            _ => false,
        };
        if typed && self.selected_hour.is_some() {
            let today = local_date_text();
            self.apply(event, today.as_str())
        } else {
            proof {
                reveal_strlit("");
                assert(""@ =~= Seq::<char>::empty());
            }
            self.apply(event, "")
        }
    }
}

} // verus!
