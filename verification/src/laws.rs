//! What holds of the store whatever it contains.

use crate::key::{law_keys_differ_by_hour, note_key_text};
use crate::note::{NoteView, TimeNote};
use crate::session::{needs_date, next_action, next_state, Action, Event, SessionView};
use crate::store::{lookup, restored, written, NoteMap, NoteStore, Snapshot};
use vstd::prelude::*;

verus! {

/// After a text is written under a key, a lookup of that key finds an
/// unlocked note with exactly that text. The empty text is no exception: the
/// key is then present, with an empty note.
pub proof fn law_lookup_finds_written(m: NoteMap, key: Seq<char>, content: Seq<char>)
    ensures
        lookup(written(m, key, content), key) == Some(
            NoteView { content, is_locked: false },
        ),
{
}

/// Writing under one key leaves the lookup of every other key as it was.
pub proof fn law_write_keeps_other_keys(
    m: NoteMap,
    key: Seq<char>,
    content: Seq<char>,
    other: Seq<char>,
)
    requires
        other != key,
    ensures
        lookup(written(m, key, content), other) == lookup(m, other),
{
}

/// Of two writes under the same key only the later one shows: the store is
/// as if the earlier one had never been made.
pub proof fn law_later_write_stands(
    m: NoteMap,
    key: Seq<char>,
    first: Seq<char>,
    second: Seq<char>,
)
    ensures
        written(written(m, key, first), key, second) == written(m, key, second),
        lookup(written(written(m, key, first), key, second), key) == Some(
            NoteView { content: second, is_locked: false },
        ),
{
    assert(written(written(m, key, first), key, second) =~= written(m, key, second));
}

/// A store that is listed and then restored from the listing is the same
/// store: the same keys, and under each the same text and lock flag.
pub proof fn law_listing_restores(store: NoteStore, records: Vec<(String, TimeNote)>)
    requires
        store.wf(),
        store.listed_as(records@),
    ensures
        restored(Snapshot::Records(records)) == store@,
{
}

/// A write never takes a key away: whatever had a note before still has one.
pub proof fn law_write_keeps_every_key(
    m: NoteMap,
    key: Seq<char>,
    content: Seq<char>,
    other: Seq<char>,
)
    requires
        m.dom().contains(other),
    ensures
        written(m, key, content).dom().contains(other),
{
}

/// No event of a session takes a key away.
pub proof fn law_events_keep_every_key(
    s: SessionView,
    event: Event,
    today: Seq<char>,
    key: Seq<char>,
)
    requires
        s.notes.dom().contains(key),
    ensures
        next_state(s, event, today).notes.dom().contains(key),
{
}

/// Whenever an event changes the notes, the caller is told to write them out.
pub proof fn law_every_change_is_persisted(s: SessionView, event: Event, today: Seq<char>)
    ensures
        next_state(s, event, today).notes != s.notes ==> next_action(s, event)
            == Action::Persist,
        next_action(s, event) == Action::Nothing ==> next_state(s, event, today).notes
            == s.notes,
{
}

/// Text typed into the editor reaches the note of the open hour and no other
/// hour of that day.
pub proof fn law_typing_keeps_other_hours(
    s: SessionView,
    text: String,
    today: Seq<char>,
    other: u32,
)
    requires
        s.selected_hour != Some(other),
    ensures
        lookup(
            next_state(s, Event::ContentTyped(text), today).notes,
            note_key_text(today, other as nat),
        ) == lookup(s.notes, note_key_text(today, other as nat)),
{
    match s.selected_hour {
        Some(hour) => {
            law_keys_differ_by_hour(today, hour as nat, other as nat);
        },
        None => {},
    }
}

/// The date matters only to text typed with the editor open: every other
/// event moves the session the same way on every day.
pub proof fn law_date_matters_only_to_typing(
    s: SessionView,
    event: Event,
    today: Seq<char>,
    other_day: Seq<char>,
)
    requires
        !needs_date(s, event),
    ensures
        next_state(s, event, today) == next_state(s, event, other_day),
{
}

} // verus!
