//! The note store: a finite mapping from note keys to note records.
//!
//! The store keeps its records in a vector in which no key occurs twice; its
//! value is the mapping that the vector spells out, so the order of the
//! records never shows.

use crate::markdown::{markdown_html, render_markdown};
use crate::note::{NoteView, TimeNote};
use vstd::prelude::*;
use vstd::string::*;

verus! {

/// The value of a store: which keys have a note, and what each note holds.
pub type NoteMap = Map<Seq<char>, NoteView>;

/// The values of a list of records, in the same order.
pub open spec fn entries_view(s: Seq<(String, TimeNote)>) -> Seq<(Seq<char>, NoteView)> {
    Seq::new(s.len(), |i: int| (s[i].0@, s[i].1@))
}

/// The mapping that a list of records spells out when read front to back:
/// where a key occurs more than once, its last record stands.
pub open spec fn map_of(s: Seq<(Seq<char>, NoteView)>) -> NoteMap
    decreases s.len(),
{
    if s.len() == 0 {
        Map::empty()
    } else {
        map_of(s.drop_last()).insert(s.last().0, s.last().1)
    }
}

/// No key occurs twice in the list.
pub open spec fn distinct_keys(s: Seq<(Seq<char>, NoteView)>) -> bool {
    forall|i: int, j: int| 0 <= i < j < s.len() ==> (#[trigger] s[i]).0 != (#[trigger] s[j]).0
}

/// The record stored under `key`, if there is one.
pub open spec fn lookup(m: NoteMap, key: Seq<char>) -> Option<NoteView> {
    if m.dom().contains(key) {
        Some(m[key])
    } else {
        None
    }
}

/// The mapping after `content` was written under `key`: the record is new or
/// replaced, and it is unlocked.
pub open spec fn written(m: NoteMap, key: Seq<char>, content: Seq<char>) -> NoteMap {
    m.insert(key, NoteView { content, is_locked: false })
}

/// The text stored under `key`, or the empty text where there is no note.
pub open spec fn content_at(m: NoteMap, key: Seq<char>) -> Seq<char> {
    if m.dom().contains(key) {
        m[key].content
    } else {
        Seq::empty()
    }
}

/// The value of an optional record.
pub open spec fn note_value(n: Option<&TimeNote>) -> Option<NoteView> {
    match n {
        Some(note) => Some(note@),
        None => None,
    }
}

/// What was found where the store is kept between runs.
#[derive(Debug)]
pub enum Snapshot {
    /// Nothing was there.
    Missing,
    /// Something was there, but not a readable set of records.
    Malformed,
    /// The records that were read, in the order in which they were read.
    Records(Vec<(String, TimeNote)>),
}

/// The mapping that a snapshot restores: the records that were read, and
/// nothing where none could be read.
pub open spec fn restored(snapshot: Snapshot) -> NoteMap {
    match snapshot {
        Snapshot::Missing => Map::empty(),
        Snapshot::Malformed => Map::empty(),
        Snapshot::Records(records) => map_of(entries_view(records@)),
    }
}

/// A key is in the mapping exactly if some record of the list carries it.
pub proof fn lemma_map_of_dom(s: Seq<(Seq<char>, NoteView)>, key: Seq<char>)
    ensures
        map_of(s).dom().contains(key) <==> exists|i: int|
            0 <= i < s.len() && (#[trigger] s[i]).0 == key,
    decreases s.len(),
{
    if s.len() > 0 {
        let t = s.drop_last();
        lemma_map_of_dom(t, key);
        if map_of(s).dom().contains(key) {
            if s.last().0 == key {
                assert(s[s.len() - 1].0 == key);
            } else {
                let i = choose|i: int| 0 <= i < t.len() && (#[trigger] t[i]).0 == key;
                assert(s[i].0 == key);
            }
        }
        if exists|i: int| 0 <= i < s.len() && (#[trigger] s[i]).0 == key {
            let i = choose|i: int| 0 <= i < s.len() && (#[trigger] s[i]).0 == key;
            if i < s.len() - 1 {
                assert(t[i].0 == key);
            }
        }
    }
}

/// Where no key occurs twice, each record of the list is the one that the
/// mapping holds under its key.
pub proof fn lemma_map_of_index(s: Seq<(Seq<char>, NoteView)>, i: int)
    requires
        distinct_keys(s),
        0 <= i < s.len(),
    ensures
        map_of(s).dom().contains(s[i].0),
        map_of(s)[s[i].0] == s[i].1,
    decreases s.len(),
{
    if i < s.len() - 1 {
        let t = s.drop_last();
        assert(t[i] == s[i]);
        assert(s[i].0 != s[s.len() - 1].0);
        assert forall|a: int, b: int| 0 <= a < b < t.len() implies (#[trigger] t[a]).0 != (
        #[trigger] t[b]).0 by {
            assert(t[a] == s[a] && t[b] == s[b]);
        }
        lemma_map_of_index(t, i);
    }
}

/// Where no key occurs twice, the mapping has as many keys as the list has
/// records.
pub proof fn lemma_map_of_len(s: Seq<(Seq<char>, NoteView)>)
    requires
        distinct_keys(s),
    ensures
        map_of(s).dom().finite(),
        map_of(s).dom().len() == s.len(),
    decreases s.len(),
{
    if s.len() > 0 {
        let t = s.drop_last();
        assert forall|a: int, b: int| 0 <= a < b < t.len() implies (#[trigger] t[a]).0 != (
        #[trigger] t[b]).0 by {
            assert(t[a] == s[a] && t[b] == s[b]);
        }
        lemma_map_of_len(t);
        lemma_map_of_dom(t, s.last().0);
        if map_of(t).dom().contains(s.last().0) {
            let i = choose|i: int| 0 <= i < t.len() && (#[trigger] t[i]).0 == s.last().0;
            assert(t[i] == s[i]);
            assert(s[i].0 != s[s.len() - 1].0);
        }
        assert(map_of(s).dom() =~= map_of(t).dom().insert(s.last().0));
    }
}

/// Replacing a record by one with the same key changes the mapping at that
/// key alone, and leaves every key single.
pub proof fn lemma_map_of_update(s: Seq<(Seq<char>, NoteView)>, i: int, e: (Seq<char>, NoteView))
    requires
        distinct_keys(s),
        0 <= i < s.len(),
        e.0 == s[i].0,
    ensures
        distinct_keys(s.update(i, e)),
        map_of(s.update(i, e)) == map_of(s).insert(e.0, e.1),
    decreases s.len(),
{
    let u = s.update(i, e);
    assert forall|a: int, b: int| 0 <= a < b < u.len() implies (#[trigger] u[a]).0 != (
    #[trigger] u[b]).0 by {
        assert(u[a].0 == s[a].0 && u[b].0 == s[b].0);
    }
    let t = s.drop_last();
    if i == s.len() - 1 {
        assert(u.drop_last() =~= t);
        assert(map_of(u) =~= map_of(s).insert(e.0, e.1));
    } else {
        assert(t[i] == s[i]);
        assert forall|a: int, b: int| 0 <= a < b < t.len() implies (#[trigger] t[a]).0 != (
        #[trigger] t[b]).0 by {
            assert(t[a] == s[a] && t[b] == s[b]);
        }
        lemma_map_of_update(t, i, e);
        assert(u.drop_last() =~= t.update(i, e));
        assert(u.last() == s.last());
        assert(s[i].0 != s[s.len() - 1].0);
        assert(map_of(u) =~= map_of(s).insert(e.0, e.1));
    }
}

/// A record whose key is new joins the mapping and leaves every key single.
pub proof fn lemma_map_of_push(s: Seq<(Seq<char>, NoteView)>, e: (Seq<char>, NoteView))
    requires
        distinct_keys(s),
        forall|i: int| 0 <= i < s.len() ==> (#[trigger] s[i]).0 != e.0,
    ensures
        distinct_keys(s.push(e)),
        map_of(s.push(e)) == map_of(s).insert(e.0, e.1),
{
    let u = s.push(e);
    assert(u.drop_last() =~= s);
    assert forall|a: int, b: int| 0 <= a < b < u.len() implies (#[trigger] u[a]).0 != (
    #[trigger] u[b]).0 by {
        assert(u[a] == s[a]);
        if b < s.len() {
            assert(u[b] == s[b]);
        }
    }
}

/// The notes of one user, by key.
#[derive(Debug)]
pub struct NoteStore {
    entries: Vec<(String, TimeNote)>,
}

impl View for NoteStore {
    type V = NoteMap;

    closed spec fn view(&self) -> NoteMap {
        map_of(entries_view(self.entries@))
    }
}

impl NoteStore {
    /// The store is well formed: it holds each key once.
    pub closed spec fn wf(&self) -> bool {
        distinct_keys(entries_view(self.entries@))
    }

    /// `records` lists this store: each key once, and together they spell
    /// out the store's mapping.
    pub open spec fn listed_as(&self, records: Seq<(String, TimeNote)>) -> bool {
        &&& distinct_keys(entries_view(records))
        &&& map_of(entries_view(records)) == self@
        &&& records.len() == self@.dom().len()
    }

    /// A store without notes.
    pub fn new() -> (r: Self)
        ensures
            r.wf(),
            r@ == NoteMap::empty(),
    {
        NoteStore { entries: Vec::new() }
    }

    /// Every well-formed store holds finitely many notes.
    pub proof fn law_finitely_many_notes(&self)
        requires
            self.wf(),
        ensures
            self@.dom().finite(),
    {
        lemma_map_of_len(entries_view(self.entries@));
    }

    /// How many keys have a note.
    pub fn len(&self) -> (r: usize)
        requires
            self.wf(),
        ensures
            r == self@.dom().len(),
    {
        proof {
            lemma_map_of_len(entries_view(self.entries@));
        }
        self.entries.len()
    }

    /// Whether no key has a note.
    pub fn is_empty(&self) -> (r: bool)
        requires
            self.wf(),
        ensures
            r == (self@ == NoteMap::empty()),
    {
        proof {
            lemma_map_of_len(entries_view(self.entries@));
            if self.entries@.len() == 0 {
                assert(self@ =~= NoteMap::empty());
            }
        }
        self.entries.len() == 0
    }

    fn position(&self, key: &String) -> (r: Option<usize>)
        ensures
            match r {
                Some(i) => i < self.entries@.len() && self.entries@[i as int].0@ == key@,
                None => forall|j: int|
                    0 <= j < self.entries@.len() ==> (#[trigger] self.entries@[j]).0@ != key@,
            },
    {
        let mut i: usize = 0;
        while i < self.entries.len()
            invariant
                i <= self.entries@.len(),
                forall|j: int| 0 <= j < i ==> (#[trigger] self.entries@[j]).0@ != key@,
            decreases self.entries@.len() - i,
        {
            if self.entries[i].0 == *key {
                return Some(i);
            }
            i += 1;
        }
        None
    }

    /// Whether `key` has a note.
    pub fn contains_key(&self, key: &str) -> (r: bool)
        requires
            self.wf(),
        ensures
            r == self@.dom().contains(key@),
    {
        self.get(key).is_some()
    }

    /// The note stored under `key`; `None` where none was ever written.
    pub fn get(&self, key: &str) -> (r: Option<&TimeNote>)
        requires
            self.wf(),
        ensures
            note_value(r) == lookup(self@, key@),
    {
        let owned = key.to_owned();
        match self.position(&owned) {
            Some(i) => {
                proof {
                    let ev = entries_view(self.entries@);
                    lemma_map_of_index(ev, i as int);
                    assert(ev[i as int].0 == key@);
                }
                Some(&self.entries[i].1)
            },
            None => {
                proof {
                    let ev = entries_view(self.entries@);
                    lemma_map_of_dom(ev, key@);
                    if map_of(ev).dom().contains(key@) {
                        let j = choose|j: int| 0 <= j < ev.len() && (#[trigger] ev[j]).0 == key@;
                        assert(self.entries@[j].0@ == key@);
                    }
                }
                None
            },
        }
    }

    /// The text stored under `key`, or the empty text where there is no note.
    pub fn content_of(&self, key: &str) -> (r: String)
        requires
            self.wf(),
        ensures
            r@ == content_at(self@, key@),
    {
        match self.get(key) {
            Some(note) => note.content.clone(),
            None => String::new(),
        }
    }

    /// The note under `key` as HTML, for display: its text is read as
    /// markdown, and the empty text where there is no note.
    pub fn preview(&self, key: &str) -> (r: String)
        requires
            self.wf(),
        ensures
            r@ == markdown_html(content_at(self@, key@)),
    {
        let content = self.content_of(key);
        render_markdown(content.as_str())
    }

    /// Stores `note` under `key`, in place of the note that was there, if any.
    /// No other key changes.
    pub fn insert(&mut self, key: String, note: TimeNote)
        requires
            old(self).wf(),
        ensures
            final(self).wf(),
            final(self)@ == old(self)@.insert(key@, note@),
    {
        let ghost ev = entries_view(self.entries@);
        let ghost e = (key@, note@);
        match self.position(&key) {
            Some(i) => {
                proof {
                    assert(ev[i as int].0 == key@);
                    lemma_map_of_update(ev, i as int, e);
                }
                self.entries.set(i, (key, note));
                assert(entries_view(self.entries@) =~= ev.update(i as int, e));
            },
            None => {
                proof {
                    assert forall|j: int| 0 <= j < ev.len() implies (#[trigger] ev[j]).0 != e.0 by {
                        assert(self.entries@[j].0@ != key@);
                    }
                    lemma_map_of_push(ev, e);
                }
                self.entries.push((key, note));
                assert(entries_view(self.entries@) =~= ev.push(e));
            },
        }
    }

    /// Writes `content` under `key` as an unlocked note, whatever the text:
    /// an empty text is stored like any other. No other key changes.
    pub fn put(&mut self, key: String, content: String)
        requires
            old(self).wf(),
        ensures
            final(self).wf(),
            final(self)@ == written(old(self)@, key@, content@),
    {
        self.insert(key, TimeNote::new(content));
    }

    /// Builds the store that `records` spell out when read front to back:
    /// where a key occurs more than once, its last record stands.
    pub fn from_records(records: &Vec<(String, TimeNote)>) -> (r: Self)
        ensures
            r.wf(),
            r@ == map_of(entries_view(records@)),
    {
        let mut store = NoteStore::new();
        let ghost all = entries_view(records@);
        let mut i: usize = 0;
        while i < records.len()
            invariant
                i <= records@.len(),
                all == entries_view(records@),
                store.wf(),
                store@ == map_of(all.take(i as int)),
            decreases records@.len() - i,
        {
            let key = records[i].0.clone();
            let note = records[i].1.clone();
            proof {
                assert(all.take(i as int + 1).drop_last() =~= all.take(i as int));
                assert(all.take(i as int + 1).last() == (key@, note@));
            }
            store.insert(key, note);
            i += 1;
        }
        assert(all.take(i as int) =~= all);
        store
    }

    /// Lists the store for safekeeping: every note once, under its key.
    pub fn records(&self) -> (r: Vec<(String, TimeNote)>)
        requires
            self.wf(),
        ensures
            self.listed_as(r@),
    {
        let mut out: Vec<(String, TimeNote)> = Vec::new();
        let mut i: usize = 0;
        while i < self.entries.len()
            invariant
                i <= self.entries@.len(),
                entries_view(out@) =~= entries_view(self.entries@).take(i as int),
            decreases self.entries@.len() - i,
        {
            let key = self.entries[i].0.clone();
            let note = self.entries[i].1.clone();
            let ghost before = entries_view(out@);
            let ghost e = (key@, note@);
            out.push((key, note));
            assert(entries_view(out@) =~= before.push(e));
            assert(entries_view(self.entries@).take(i as int + 1) =~= entries_view(
                self.entries@,
            ).take(i as int).push(e));
            i += 1;
        }
        proof {
            let ev = entries_view(self.entries@);
            assert(ev.take(i as int) =~= ev);
            assert(entries_view(out@) == ev);
            lemma_map_of_len(ev);
        }
        out
    }

    /// Restores the store from what was found where it is kept: the records
    /// that were read, or a store without notes where nothing was there or
    /// what was there could not be read.
    pub fn load(snapshot: &Snapshot) -> (r: Self)
        ensures
            r.wf(),
            r@ == restored(*snapshot),
    {
        match snapshot {
            Snapshot::Missing => NoteStore::new(),
            Snapshot::Malformed => NoteStore::new(),
            Snapshot::Records(records) => NoteStore::from_records(records),
        }
    }
}

} // verus!
