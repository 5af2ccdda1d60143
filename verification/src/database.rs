//! The in-memory side of the MessagePack key–value store: JSON values by
//! key, and a dirty flag that tells the write-behind flusher when the file is
//! behind the memory.
use vstd::prelude::*;
use crate::text::str_eq;

verus! {

/// The value stored last under `k`, if any.
pub open spec fn lookup(s: Seq<(Seq<char>, serde_json::Value)>, k: Seq<char>) -> Option<serde_json::Value>
    decreases s.len(),
{
    if s.len() == 0 {
        None
    } else if s.last().0 == k {
        Some(s.last().1)
    } else {
        lookup(s.drop_last(), k)
    }
}

/// The store as a map from keys to values.
pub open spec fn store_map(s: Seq<(Seq<char>, serde_json::Value)>) -> Map<Seq<char>, serde_json::Value> {
    Map::new(|k: Seq<char>| lookup(s, k) is Some, |k: Seq<char>| lookup(s, k)->0)
}

/// The keys of the entries, in order.
pub open spec fn entry_keys(s: Seq<(Seq<char>, serde_json::Value)>) -> Seq<Seq<char>> {
    s.map_values(|e: (Seq<char>, serde_json::Value)| e.0)
}

proof fn lemma_lookup_found(s: Seq<(Seq<char>, serde_json::Value)>, i: int)
    requires
        entry_keys(s).no_duplicates(),
        0 <= i < s.len(),
    ensures
        lookup(s, s[i].0) == Some(s[i].1),
    decreases s.len(),
{
    if i < s.len() - 1 {
        assert(entry_keys(s)[i] != entry_keys(s)[s.len() - 1]);
        let t = s.drop_last();
        assert(entry_keys(t) =~= entry_keys(s).drop_last());
        assert(t[i] == s[i]);
        lemma_lookup_found(t, i);
    }
}

proof fn lemma_lookup_absent(s: Seq<(Seq<char>, serde_json::Value)>, k: Seq<char>)
    ensures
        lookup(s, k) is None <==> !entry_keys(s).contains(k),
    decreases s.len(),
{
    if s.len() > 0 {
        let t = s.drop_last();
        assert(entry_keys(t) =~= entry_keys(s).drop_last());
        lemma_lookup_absent(t, k);
        if entry_keys(t).contains(k) {
            let j = choose|j: int| 0 <= j < entry_keys(t).len() && entry_keys(t)[j] == k;
            assert(entry_keys(s)[j] == k);
        }
        if entry_keys(s).contains(k) && s.last().0 != k {
            let j = choose|j: int| 0 <= j < entry_keys(s).len() && entry_keys(s)[j] == k;
            assert(j != s.len() - 1);
            assert(entry_keys(t)[j] == k);
        }
        if s.last().0 == k {
            assert(entry_keys(s)[s.len() - 1] == k);
        }
    }
}

proof fn lemma_lookup_push(s: Seq<(Seq<char>, serde_json::Value)>, e: (Seq<char>, serde_json::Value), k: Seq<char>)
    ensures
        lookup(s.push(e), k) == if e.0 == k { Some(e.1) } else { lookup(s, k) },
{
    assert(s.push(e).drop_last() =~= s);
}

proof fn lemma_lookup_remove(s: Seq<(Seq<char>, serde_json::Value)>, i: int, k: Seq<char>)
    requires
        0 <= i < s.len(),
        s[i].0 != k,
    ensures
        lookup(s.remove(i), k) == lookup(s, k),
    decreases s.len(),
{
    if i < s.len() - 1 {
        let t = s.drop_last();
        assert(s.remove(i).drop_last() =~= t.remove(i));
        assert(s.remove(i).last() == s.last());
        lemma_lookup_remove(t, i, k);
    } else {
        assert(s.remove(i) =~= s.drop_last());
    }
}

proof fn lemma_remove_unique(s: Seq<(Seq<char>, serde_json::Value)>, i: int)
    requires
        entry_keys(s).no_duplicates(),
        0 <= i < s.len(),
    ensures
        entry_keys(s.remove(i)) == entry_keys(s).remove(i),
        entry_keys(s.remove(i)).no_duplicates(),
        !entry_keys(s.remove(i)).contains(s[i].0),
{
    let ks = entry_keys(s);
    let r = entry_keys(s.remove(i));
    assert(r =~= ks.remove(i));
    assert forall|a: int, b: int| 0 <= a < r.len() && 0 <= b < r.len() && a != b implies r[a] != r[b] by {
        let a0 = if a < i { a } else { a + 1 };
        let b0 = if b < i { b } else { b + 1 };
        assert(ks[a0] != ks[b0]);
    }
    if r.contains(s[i].0) {
        let j = choose|j: int| 0 <= j < r.len() && r[j] == s[i].0;
        let j0 = if j < i { j } else { j + 1 };
        assert(ks[j0] == ks[i]);
    }
}

/// JSON values by key, and whether memory is ahead of the file.
pub struct Database {
    entries: Vec<(String, serde_json::Value)>,
    dirty: bool,
}

impl Database {
    /// The entries, keys by their view.
    pub closed spec fn entry_views(&self) -> Seq<(Seq<char>, serde_json::Value)> {
        self.entries@.map_values(|e: (String, serde_json::Value)| (e.0@, e.1))
    }

    /// The stored values by key.
    pub open spec fn contents(&self) -> Map<Seq<char>, serde_json::Value> {
        store_map(self.entry_views())
    }

    /// Each key is stored once.
    pub open spec fn wf(&self) -> bool {
        entry_keys(self.entry_views()).no_duplicates()
    }

    /// Whether a write has not reached the file yet.
    pub closed spec fn is_dirty(&self) -> bool {
        self.dirty
    }

    /// An empty store that the file does not lag behind.
    pub fn new() -> (db: Self)
        ensures
            db.wf(),
            db.contents() == Map::<Seq<char>, serde_json::Value>::empty(),
            !db.is_dirty(),
    {
        let db = Database { entries: Vec::new(), dirty: false };
        assert(entry_keys(db.entry_views()) =~= Seq::<Seq<char>>::empty());
        assert(db.contents() =~= Map::<Seq<char>, serde_json::Value>::empty());
        db
    }

    /// The store as read from a file's bytes: the decoded map, or an empty
    /// store when the bytes are empty or do not decode. Nothing is to be
    /// written back yet.
    pub fn from_msgpack(bytes: &[u8]) -> (db: Self)
        ensures
            db.wf(),
            bytes@.len() == 0 ==> db.contents() == Map::<Seq<char>, serde_json::Value>::empty(),
            bytes@.len() > 0 ==> match msgpack_map_keys(bytes@) {
                Some(ks) => db.contents().dom() == ks,
                None => db.contents() == Map::<Seq<char>, serde_json::Value>::empty(),
            },
            !db.is_dirty(),
    {
        if bytes.len() == 0 {
            return Database::new();
        }
        let entries = decode_entries(bytes);
        let db = Database { entries, dirty: false };
        assert(entry_keys(db.entry_views()) =~= entries@.map_values(|e: (String, serde_json::Value)| e.0@));
        proof {
            db.lemma_dom_is_keys();
            if msgpack_map_keys(bytes@) is None {
                assert(db.entry_views().len() == 0);
                assert(db.contents() =~= Map::<Seq<char>, serde_json::Value>::empty());
            }
        }
        db
    }

    fn position(&self, key: &str) -> (r: Option<usize>)
        ensures
            match r {
                Some(i) => i < self.entries@.len() && self.entry_views()[i as int].0 == key@,
                None => !entry_keys(self.entry_views()).contains(key@),
            },
    {
        let ghost v = self.entry_views();
        let mut i: usize = 0;
        while i < self.entries.len()
            invariant
                i <= self.entries@.len(),
                v == self.entry_views(),
                forall|j: int| 0 <= j < i ==> v[j].0 != key@,
            decreases self.entries.len() - i,
        {
            if str_eq(self.entries[i].0.as_str(), key) {
                return Some(i);
            }
            i = i + 1;
        }
        proof {
            if entry_keys(v).contains(key@) {
                let j = choose|j: int| 0 <= j < entry_keys(v).len() && entry_keys(v)[j] == key@;
                assert(v[j].0 == key@);
            }
        }
        None
    }

    /// The value stored under `key`.
    pub fn get(&self, key: &str) -> (r: Option<&serde_json::Value>)
        requires
            self.wf(),
        ensures
            match r {
                Some(v) => self.contents().dom().contains(key@) && *v == self.contents()[key@],
                None => !self.contents().dom().contains(key@),
            },
    {
        match self.position(key) {
            Some(i) => {
                proof { lemma_lookup_found(self.entry_views(), i as int); }
                Some(&self.entries[i].1)
            },
            None => {
                proof { lemma_lookup_absent(self.entry_views(), key@); }
                None
            },
        }
    }

    /// Whether a value is stored under `key`.
    pub fn contains_key(&self, key: &str) -> (b: bool)
        requires
            self.wf(),
        ensures
            b == self.contents().dom().contains(key@),
    {
        self.get(key).is_some()
    }

    /// Stores `value` under `key`, replacing any; memory is then ahead of
    /// the file.
    pub fn set(&mut self, key: &str, value: serde_json::Value)
        requires
            old(self).wf(),
        ensures
            final(self).wf(),
            final(self).contents() == old(self).contents().insert(key@, value),
            final(self).is_dirty(),
    {
        let ghost s0 = self.entry_views();
        match self.position(key) {
            Some(i) => {
                self.entries.remove(i);
                proof {
                    assert(self.entry_views() =~= s0.remove(i as int));
                    lemma_remove_unique(s0, i as int);
                    assert forall|k: Seq<char>| k != key@ implies lookup(self.entry_views(), k) == lookup(s0, k) by {
                        lemma_lookup_remove(s0, i as int, k);
                    }
                }
            },
            None => {},
        }
        let ghost s1 = self.entry_views();
        assert(entry_keys(s1).no_duplicates() && !entry_keys(s1).contains(key@));
        assert(forall|k: Seq<char>| k != key@ ==> lookup(s1, k) == lookup(s0, k));
        self.entries.push((key.to_string(), value));
        self.dirty = true;
        proof {
            let s2 = self.entry_views();
            assert(s2 =~= s1.push((key@, value)));
            assert(entry_keys(s2) =~= entry_keys(s1).push(key@));
            assert forall|k: Seq<char>| #[trigger] lookup(s2, k) == (if k == key@ { Some(value) } else { lookup(s1, k) }) by {
                lemma_lookup_push(s1, (key@, value), k);
            }
            assert(self.contents() =~= old(self).contents().insert(key@, value));
        }
    }

    /// Removes the value stored under `key`; says whether there was one.
    /// Memory is ahead of the file after a removal, as dirty as before
    /// otherwise.
    pub fn delete(&mut self, key: &str) -> (removed: bool)
        requires
            old(self).wf(),
        ensures
            final(self).wf(),
            removed == old(self).contents().dom().contains(key@),
            final(self).contents() == old(self).contents().remove(key@),
            final(self).is_dirty() == (removed || old(self).is_dirty()),
    {
        let ghost s0 = self.entry_views();
        match self.position(key) {
            Some(i) => {
                proof { lemma_lookup_found(s0, i as int); }
                self.entries.remove(i);
                self.dirty = true;
                proof {
                    let s1 = self.entry_views();
                    assert(s1 =~= s0.remove(i as int));
                    lemma_remove_unique(s0, i as int);
                    assert forall|k: Seq<char>| k != key@ implies lookup(s1, k) == lookup(s0, k) by {
                        lemma_lookup_remove(s0, i as int, k);
                    }
                    lemma_lookup_absent(s1, key@);
                    assert(self.contents() =~= old(self).contents().remove(key@));
                }
                true
            },
            None => {
                proof {
                    lemma_lookup_absent(s0, key@);
                    assert(self.contents() =~= old(self).contents().remove(key@));
                }
                false
            },
        }
    }

    /// Number of stored keys.
    pub fn len(&self) -> (n: usize)
        requires
            self.wf(),
        ensures
            n == self.contents().dom().len(),
    {
        proof { self.lemma_dom_is_keys(); }
        self.entries.len()
    }

    /// Whether nothing is stored.
    pub fn is_empty(&self) -> (b: bool)
        requires
            self.wf(),
        ensures
            b == (self.contents().dom().len() == 0),
    {
        self.len() == 0
    }

    proof fn lemma_dom_is_keys(&self)
        ensures
            self.contents().dom() == entry_keys(self.entry_views()).to_set(),
            self.wf() ==> self.contents().dom().len() == self.entries@.len(),
    {
        let s = self.entry_views();
        assert forall|k: Seq<char>| self.contents().dom().contains(k) <==> entry_keys(s).to_set().contains(k) by {
            lemma_lookup_absent(s, k);
        }
        assert(self.contents().dom() =~= entry_keys(s).to_set());
        if self.wf() {
            entry_keys(s).unique_seq_to_set();
        }
    }

    /// Every stored key, each once.
    pub fn keys(&self) -> (ks: Vec<String>)
        requires
            self.wf(),
        ensures
            ks@.map_values(|k: String| k@).no_duplicates(),
            ks@.map_values(|k: String| k@).to_set() == self.contents().dom(),
    {
        let ghost s = self.entry_views();
        let mut ks: Vec<String> = Vec::new();
        let mut i: usize = 0;
        while i < self.entries.len()
            invariant
                i <= self.entries@.len(),
                s == self.entry_views(),
                ks@.map_values(|k: String| k@) == entry_keys(s).take(i as int),
            decreases self.entries.len() - i,
        {
            let ghost before = ks@.map_values(|k: String| k@);
            ks.push(self.entries[i].0.clone());
            assert(ks@.map_values(|k: String| k@) =~= before.push(s[i as int].0));
            assert(entry_keys(s).take(i + 1) =~= entry_keys(s).take(i as int).push(s[i as int].0));
            i = i + 1;
        }
        proof {
            assert(entry_keys(s).take(s.len() as int) =~= entry_keys(s));
            self.lemma_dom_is_keys();
        }
        ks
    }

    /// Whether memory is ahead of the file.
    pub fn needs_flush(&self) -> (b: bool)
        ensures
            b == self.is_dirty(),
    {
        self.dirty
    }

    /// The bytes to write to the file: `None` when the file is up to date,
    /// else the MessagePack encoding of the map (or why it failed). Encoded
    /// bytes are never empty, and read back as a map they hold exactly the
    /// stored keys.
    pub fn flush_payload(&self) -> (r: Option<Result<Vec<u8>, String>>)
        ensures
            r is Some == self.is_dirty(),
            r matches Some(Ok(b)) ==> b@.len() > 0 && (msgpack_map_keys(b@) matches Some(ks) ==> ks == self.contents().dom()),
    {
        if !self.dirty {
            return None;
        }
        let r = encode_entries(&self.entries);
        proof {
            self.lemma_dom_is_keys();
            assert(entry_keys(self.entry_views()) =~= self.entries@.map_values(|e: (String, serde_json::Value)| e.0@));
        }
        Some(r)
    }

    /// Records that the file now holds what memory holds.
    pub fn mark_flushed(&mut self)
        ensures
            final(self).contents() == old(self).contents(),
            final(self).wf() == old(self).wf(),
            !final(self).is_dirty(),
    {
        self.dirty = false;
    }
}

/// The keys of the map that `rmp_serde::from_slice` reads from bytes as a
/// map of strings to JSON values; `None` when the bytes do not decode so.
pub uninterp spec fn msgpack_map_keys(bytes: Seq<u8>) -> Option<Set<Seq<char>>>;

/// The set of keys of entries.
pub open spec fn entry_key_set(v: Seq<(String, serde_json::Value)>) -> Set<Seq<char>> {
    v.map_values(|e: (String, serde_json::Value)| e.0@).to_set()
}

/// The entries of a MessagePack map of JSON values, as `rmp_serde::from_slice`
/// reads them into a `HashMap`; none when the bytes do not decode. A map
/// holds each key once; which values come back is not stated.
#[verifier::external_body]
fn decode_entries(bytes: &[u8]) -> (v: Vec<(String, serde_json::Value)>)
    ensures
        v@.map_values(|e: (String, serde_json::Value)| e.0@).no_duplicates(),
        match msgpack_map_keys(bytes@) {
            Some(ks) => entry_key_set(v@) == ks,
            None => v@.len() == 0,
        },
{
    let map: std::collections::HashMap<String, serde_json::Value> = rmp_serde::from_slice(bytes).unwrap_or_default();
    map.into_iter().collect()
}

/// Encodes the entries as a MessagePack map with `rmp_serde::to_vec`; the
/// error's message when encoding fails. The bytes hold at least the map's
/// header, and when `rmp_serde::from_slice` reads them back as a map its keys
/// are the entries' keys. The bytes themselves follow the order in which the
/// `HashMap` is walked and are not stated; nor is it stated that they read
/// back, since the reader refuses nesting deeper than its depth limit, which
/// a deeply nested value can pass.
#[verifier::external_body]
fn encode_entries(entries: &Vec<(String, serde_json::Value)>) -> (r: Result<Vec<u8>, String>)
    ensures
        r matches Ok(b) ==> b@.len() > 0 && (msgpack_map_keys(b@) matches Some(ks) ==> ks == entry_key_set(entries@)),
{
    let map: std::collections::HashMap<&String, &serde_json::Value> = entries.iter().map(|(k, v)| (k, v)).collect();
    rmp_serde::to_vec(&map).map_err(|e| e.to_string())
}

/// A value stored last is what a read then gives back, other keys keep
/// their values, and a removed key reads as absent.
pub proof fn law_read_after_write(m: Map<Seq<char>, serde_json::Value>, k: Seq<char>, v: serde_json::Value, other: Seq<char>)
    requires
        other != k,
    ensures
        m.insert(k, v).dom().contains(k),
        m.insert(k, v)[k] == v,
        m.insert(k, v).dom().contains(other) == m.dom().contains(other),
        m.dom().contains(other) ==> m.insert(k, v)[other] == m[other],
        !m.remove(k).dom().contains(k),
{
}

} // verus!
