use chronos_notes::key::today_key;
use chronos_notes::note::TimeNote;
use chronos_notes::session::{display_hour, Action, Event, Session, CONFIRMATION_SECS};
use chronos_notes::store::Snapshot;

#[test]
fn session_starts_closed_and_unconfirmed() {
    let session = Session::start(&Snapshot::Missing);
    assert!(session.notes.is_empty());
    assert_eq!(session.selected_hour, None);
    assert!(!session.save_confirmed);
    assert_eq!(session.editor_hour(), 0);
}

#[test]
fn session_starts_on_the_records_that_were_read() {
    let records = vec![(
        "2024-01-01-5".to_string(),
        TimeNote { content: "kept".to_string(), is_locked: true },
    )];
    let session = Session::start(&Snapshot::Records(records));
    assert_eq!(session.notes.len(), 1);
    assert_eq!(
        session.notes.get("2024-01-01-5"),
        Some(&TimeNote { content: "kept".to_string(), is_locked: true })
    );
}

#[test]
fn selecting_and_closing_moves_the_editor() {
    let mut session = Session::start(&Snapshot::Malformed);
    assert_eq!(session.apply(Event::HourSelected(0), "2024-01-01"), Action::Nothing);
    assert_eq!(session.selected_hour, Some(0));
    assert_eq!(session.editor_hour(), 12);
    assert_eq!(session.apply(Event::HourSelected(7), "2024-01-01"), Action::Nothing);
    assert_eq!(session.selected_hour, Some(7));
    assert_eq!(session.editor_hour(), 7);
    assert_eq!(session.apply(Event::EditorClosed, "2024-01-01"), Action::Nothing);
    assert_eq!(session.selected_hour, None);
    assert!(session.notes.is_empty());
}

#[test]
fn typing_writes_the_note_of_the_open_hour() {
    let mut session = Session::start(&Snapshot::Missing);
    session.apply(Event::HourSelected(5), "2024-01-01");
    let action = session.apply(Event::ContentTyped("M".to_string()), "2024-01-01");
    assert_eq!(action, Action::Persist);
    let action = session.apply(Event::ContentTyped("Morning reflection".to_string()), "2024-01-01");
    assert_eq!(action, Action::Persist);
    assert_eq!(session.notes.len(), 1);
    assert_eq!(
        session.notes.get("2024-01-01-5"),
        Some(&TimeNote { content: "Morning reflection".to_string(), is_locked: false })
    );
    assert_eq!(session.selected_hour, Some(5));
    assert!(!session.save_confirmed);
}

#[test]
fn typing_with_the_editor_closed_changes_nothing() {
    let mut session = Session::start(&Snapshot::Missing);
    let action = session.apply(Event::ContentTyped("lost".to_string()), "2024-01-01");
    assert_eq!(action, Action::Nothing);
    assert!(session.notes.is_empty());
}

#[test]
fn typing_on_another_day_writes_another_note() {
    let mut session = Session::start(&Snapshot::Missing);
    session.apply(Event::HourSelected(5), "2024-01-01");
    session.apply(Event::ContentTyped("monday".to_string()), "2024-01-01");
    session.apply(Event::ContentTyped("tuesday".to_string()), "2024-01-02");
    assert_eq!(session.notes.len(), 2);
    assert_eq!(session.notes.content_of("2024-01-01-5"), "monday");
    assert_eq!(session.notes.content_of("2024-01-02-5"), "tuesday");
}

#[test]
fn save_confirms_until_the_confirmation_expires() {
    let mut session = Session::start(&Snapshot::Missing);
    assert_eq!(session.apply(Event::SaveRequested, "2024-01-01"), Action::PersistAndConfirm);
    assert!(session.save_confirmed);
    assert_eq!(session.apply(Event::HourSelected(3), "2024-01-01"), Action::Nothing);
    assert!(session.save_confirmed);
    assert_eq!(session.apply(Event::ConfirmationExpired, "2024-01-01"), Action::Nothing);
    assert!(!session.save_confirmed);
    assert_eq!(session.selected_hour, Some(3));
    assert_eq!(CONFIRMATION_SECS, 2);
}

#[test]
fn handle_types_under_todays_key() {
    let mut session = Session::start(&Snapshot::Missing);
    assert_eq!(session.handle(Event::HourSelected(9)), Action::Nothing);
    let before = today_key(9);
    assert_eq!(session.handle(Event::ContentTyped("now".to_string())), Action::Persist);
    let after = today_key(9);
    assert_eq!(session.notes.len(), 1);
    assert!(session.notes.content_of(&before) == "now" || session.notes.content_of(&after) == "now");
    assert_eq!(session.handle(Event::SaveRequested), Action::PersistAndConfirm);
    assert!(session.save_confirmed);
    assert_eq!(session.handle(Event::ConfirmationExpired), Action::Nothing);
    assert!(!session.save_confirmed);
    assert_eq!(session.handle(Event::EditorClosed), Action::Nothing);
    assert_eq!(session.selected_hour, None);
}

#[test]
fn display_hour_shows_twelve_for_zero() {
    assert_eq!(display_hour(0), 12);
    assert_eq!(display_hour(1), 1);
    assert_eq!(display_hour(11), 11);
    assert_eq!(display_hour(12), 12);
    assert_eq!(display_hour(23), 23);
}

#[test]
fn typing_leaves_the_other_hours_of_the_day_alone() {
    let mut session = Session::start(&Snapshot::Missing);
    session.apply(Event::HourSelected(1), "2024-01-01");
    session.apply(Event::ContentTyped("one".to_string()), "2024-01-01");
    session.apply(Event::HourSelected(11), "2024-01-01");
    session.apply(Event::ContentTyped("eleven".to_string()), "2024-01-01");
    session.apply(Event::ContentTyped("eleven!".to_string()), "2024-01-01");
    assert_eq!(session.notes.len(), 2);
    assert_eq!(session.notes.content_of("2024-01-01-1"), "one");
    assert_eq!(session.notes.content_of("2024-01-01-11"), "eleven!");
}

#[test]
fn no_event_removes_a_note() {
    let mut session = Session::start(&Snapshot::Missing);
    session.apply(Event::HourSelected(4), "2024-01-01");
    session.apply(Event::ContentTyped("kept".to_string()), "2024-01-01");
    session.apply(Event::ContentTyped(String::new()), "2024-01-01");
    session.apply(Event::EditorClosed, "2024-01-01");
    session.apply(Event::SaveRequested, "2024-01-01");
    session.apply(Event::ConfirmationExpired, "2024-01-01");
    session.apply(Event::HourSelected(5), "2024-01-01");
    assert!(session.notes.contains_key("2024-01-01-4"));
    assert_eq!(session.notes.content_of("2024-01-01-4"), "");
    assert_eq!(session.notes.len(), 1);
}

#[test]
fn handle_with_the_editor_closed_drops_typed_text() {
    let mut session = Session::start(&Snapshot::Missing);
    assert_eq!(session.handle(Event::ContentTyped("lost".to_string())), Action::Nothing);
    assert!(session.notes.is_empty());
    assert_eq!(session.selected_hour, None);
}
