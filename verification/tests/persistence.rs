use chronos_notes::note::TimeNote;
use chronos_notes::store::{NoteStore, Snapshot};
use serde_json::Value;

fn to_json(store: &NoteStore) -> String {
    let mut root = serde_json::Map::new();
    for (key, note) in store.records() {
        let mut fields = serde_json::Map::new();
        fields.insert("content".to_string(), Value::String(note.content));
        fields.insert("is_locked".to_string(), Value::Bool(note.is_locked));
        root.insert(key, Value::Object(fields));
    }
    serde_json::to_string_pretty(&Value::Object(root)).unwrap()
}

fn record_of(value: &Value) -> Option<TimeNote> {
    let fields = value.as_object()?;
    let content = fields.get("content")?.as_str()?.to_string();
    let is_locked = fields.get("is_locked")?.as_bool()?;
    Some(TimeNote { content, is_locked })
}

fn from_json(text: Option<&str>) -> Snapshot {
    let text = match text {
        Some(text) => text,
        None => return Snapshot::Missing,
    };
    let root = match serde_json::from_str::<Value>(text) {
        Ok(Value::Object(root)) => root,
        _ => return Snapshot::Malformed,
    };
    let mut records = Vec::new();
    for (key, value) in root.iter() {
        match record_of(value) {
            Some(note) => records.push((key.clone(), note)),
            None => return Snapshot::Malformed,
        }
    }
    Snapshot::Records(records)
}

#[test]
fn put_persist_reload_yields_exactly_that_entry() {
    let mut store = NoteStore::new();
    store.put("2024-01-01-5".to_string(), "Morning reflection".to_string());
    let text = to_json(&store);
    let again = NoteStore::load(&from_json(Some(&text)));
    assert_eq!(again.len(), 1);
    assert_eq!(
        again.get("2024-01-01-5"),
        Some(&TimeNote { content: "Morning reflection".to_string(), is_locked: false })
    );
    assert_eq!(
        again.records(),
        vec![(
            "2024-01-01-5".to_string(),
            TimeNote { content: "Morning reflection".to_string(), is_locked: false }
        )]
    );
}

#[test]
fn reload_reproduces_every_entry() {
    let mut store = NoteStore::new();
    store.put("2024-01-01-0".to_string(), String::new());
    store.put("2024-01-01-5".to_string(), "# Heading\n\n* \"quoted\" \\ text".to_string());
    store.insert(
        "2024-01-01-23".to_string(),
        TimeNote { content: "late".to_string(), is_locked: true },
    );
    let text = to_json(&store);
    let again = NoteStore::load(&from_json(Some(&text)));
    assert_eq!(again.len(), store.len());
    for (key, note) in store.records() {
        assert_eq!(again.get(&key), Some(&note));
    }
}

#[test]
fn reload_of_well_formed_text_reads_its_entries() {
    let text = "{\n  \"2024-01-01-5\": {\n    \"content\": \"Morning reflection\",\n    \"is_locked\": false\n  }\n}";
    let store = NoteStore::load(&from_json(Some(text)));
    assert_eq!(store.len(), 1);
    assert_eq!(store.content_of("2024-01-01-5"), "Morning reflection");
}

#[test]
fn reload_without_a_file_is_empty() {
    let store = NoteStore::load(&from_json(None));
    assert!(store.is_empty());
}

#[test]
fn reload_of_invalid_text_is_empty() {
    let store = NoteStore::load(&from_json(Some("not json")));
    assert!(store.is_empty());
    let store = NoteStore::load(&from_json(Some("[1, 2, 3]")));
    assert!(store.is_empty());
    let store = NoteStore::load(&from_json(Some("{\"2024-01-01-5\": {\"content\": 5}}")));
    assert!(store.is_empty());
}
