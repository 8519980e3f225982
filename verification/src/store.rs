//! The snapshot store: a namespaced key/value persistence layer shared by
//! every platform cycle. Keys are strings of the shape
//! `{platform}:{entity-type}`; values are opaque serialized bytes. A value,
//! once written, is only ever replaced wholesale.
//!
//! The store is an explicitly constructed instance handed by reference into
//! the cycle orchestrator and the channel handlers; a process wires it to
//! whatever durable backing it has, and hands the loaded pairs in here.

use vstd::prelude::*;
use vstd::string::StrSliceExecFns;

verus! {

/// The mathematical value of one stored pair.
pub ghost struct StoreEntryView {
    pub key: Seq<char>,
    pub value: Seq<u8>,
}

/// One key/value pair of the store, exposed so that a host process can load
/// and persist the store's contents.
pub struct StoreEntry {
    pub key: String,
    pub value: Vec<u8>,
}

impl View for StoreEntry {
    type V = StoreEntryView;

    open spec fn view(&self) -> StoreEntryView {
        StoreEntryView { key: self.key@, value: self.value@ }
    }
}

impl DeepView for StoreEntry {
    type V = StoreEntryView;

    open spec fn deep_view(&self) -> StoreEntryView {
        self.view()
    }
}

/// The map an entry sequence denotes: later entries would win, though the
/// store never holds one key twice.
pub open spec fn map_of(s: Seq<StoreEntryView>) -> Map<Seq<char>, Seq<u8>>
    decreases s.len(),
{
    if s.len() == 0 {
        Map::empty()
    } else {
        map_of(s.drop_last()).insert(s.last().key, s.last().value)
    }
}

/// No key appears twice.
pub open spec fn distinct_keys(s: Seq<StoreEntryView>) -> bool {
    forall|i: int, j: int| 0 <= i < j < s.len() ==> s[i].key != s[j].key
}

proof fn lemma_map_of_lookup(s: Seq<StoreEntryView>, i: int)
    requires
        distinct_keys(s),
        0 <= i < s.len(),
    ensures
        map_of(s).contains_key(s[i].key),
        map_of(s)[s[i].key] == s[i].value,
    decreases s.len(),
{
    if i == s.len() - 1 {
    } else {
        assert(s.drop_last()[i] == s[i]);
        lemma_map_of_lookup(s.drop_last(), i);
        assert(s[i].key != s.last().key);
    }
}

proof fn lemma_map_of_absent(s: Seq<StoreEntryView>, k: Seq<char>)
    requires
        forall|i: int| 0 <= i < s.len() ==> (#[trigger] s[i].key) != k,
    ensures
        !map_of(s).contains_key(k),
    decreases s.len(),
{
    if s.len() > 0 {
        assert(forall|i: int|
            0 <= i < s.drop_last().len() ==> (#[trigger] s.drop_last()[i].key) == s[i].key);
        lemma_map_of_absent(s.drop_last(), k);
        assert(s.last().key != k);
    }
}

proof fn lemma_map_of_update(s: Seq<StoreEntryView>, i: int, e: StoreEntryView)
    requires
        distinct_keys(s),
        0 <= i < s.len(),
        e.key == s[i].key,
    ensures
        map_of(s.update(i, e)) =~= map_of(s).insert(e.key, e.value),
    decreases s.len(),
{
    let t = s.update(i, e);
    if i == s.len() - 1 {
        assert(t.drop_last() =~= s.drop_last());
        assert(t.last() == e);
    } else {
        assert(t.drop_last() =~= s.drop_last().update(i, e));
        assert(s.drop_last()[i] == s[i]);
        lemma_map_of_update(s.drop_last(), i, e);
        assert(t.last() == s.last());
        assert(e.key != s.last().key);
    }
}

/// String equality by value: two string slices denote the same sequence of
/// characters.
pub(crate) fn str_eq(a: &str, b: &str) -> (r: bool)
    ensures
        r == (a@ == b@),
{
    let a_len = a.unicode_len();
    let b_len = b.unicode_len();
    if a_len != b_len {
        return false;
    }
    let mut i: usize = 0;
    while i < a_len
        invariant
            i <= a_len,
            a_len == a@.len(),
            a_len == b@.len(),
            forall|k: int| 0 <= k < i ==> a@[k] == b@[k],
        decreases a_len - i,
    {
        if a.get_char(i) != b.get_char(i) {
            return false;
        }
        i = i + 1;
    }
    proof {
        assert(a@ =~= b@);
    }
    true
}

/// The snapshot store. Its abstract value is a map from key strings to byte
/// values; `put` is last-writer-wins and replaces a value wholesale.
pub struct SnapshotStore {
    entries: Vec<StoreEntry>,
}

impl View for SnapshotStore {
    type V = Map<Seq<char>, Seq<u8>>;

    closed spec fn view(&self) -> Map<Seq<char>, Seq<u8>> {
        map_of(self.entries.deep_view())
    }
}

impl SnapshotStore {
    #[verifier::type_invariant]
    spec fn wf(self) -> bool {
        distinct_keys(self.entries.deep_view())
    }

    /// An empty store.
    pub fn new() -> (s: SnapshotStore)
        ensures
            s@ == Map::<Seq<char>, Seq<u8>>::empty(),
    {
        SnapshotStore { entries: Vec::new() }
    }

    /// The position of `key` among the entries, if present.
    fn position_of(&self, key: &str) -> (r: Option<usize>)
        ensures
            match r {
                Some(i) => i < self.entries.len() && self.entries.deep_view()[i as int].key
                    == key@,
                None => forall|i: int|
                    0 <= i < self.entries.len() ==> (#[trigger] self.entries.deep_view()[i].key)
                        != key@,
            },
    {
        let mut i: usize = 0;
        while i < self.entries.len()
            invariant
                i <= self.entries.len(),
                forall|k: int|
                    0 <= k < i ==> (#[trigger] self.entries.deep_view()[k].key) != key@,
            decreases self.entries.len() - i,
        {
            if str_eq(self.entries[i].key.as_str(), key) {
                return Some(i);
            }
            i = i + 1;
        }
        None
    }

    /// Is a value stored under `key`?
    pub fn has(&self, key: &str) -> (r: bool)
        ensures
            r == self@.contains_key(key@),
    {
        proof {
            use_type_invariant(&*self);
        }
        match self.position_of(key) {
            Some(i) => {
                proof {
                    lemma_map_of_lookup(self.entries.deep_view(), i as int);
                }
                true
            },
            None => {
                proof {
                    lemma_map_of_absent(self.entries.deep_view(), key@);
                }
                false
            },
        }
    }

    /// The value stored under `key`, or `None` when the key is absent.
    pub fn get(&self, key: &str) -> (r: Option<Vec<u8>>)
        ensures
            match r {
                Some(v) => self@.contains_key(key@) && v@ == self@[key@],
                None => !self@.contains_key(key@),
            },
    {
        proof {
            use_type_invariant(&*self);
        }
        match self.position_of(key) {
            Some(i) => {
                proof {
                    lemma_map_of_lookup(self.entries.deep_view(), i as int);
                }
                let v = self.entries[i].value.clone();
                proof {
                    assert(v@ =~= self.entries.deep_view()[i as int].value);
                }
                Some(v)
            },
            None => {
                proof {
                    lemma_map_of_absent(self.entries.deep_view(), key@);
                }
                None
            },
        }
    }

    /// Store `value` under `key`, replacing any previous value wholesale.
    pub fn put(&mut self, key: &str, value: Vec<u8>)
        ensures
            final(self)@ == old(self)@.insert(key@, value@),
    {
        proof {
            use_type_invariant(&*self);
        }
        let ghost s0 = self.entries.deep_view();
        let position = self.position_of(key);
        let mut entries: Vec<StoreEntry> = Vec::new();
        std::mem::swap(&mut entries, &mut self.entries);
        match position {
            Some(i) => {
                let ghost value_view = value@;
                let entry = &mut entries[i];
                entry.value = value;
                proof {
                    assert(entries.deep_view() =~= s0.update(
                        i as int,
                        StoreEntryView { key: key@, value: value_view },
                    ));
                    lemma_map_of_update(
                        s0,
                        i as int,
                        StoreEntryView { key: key@, value: value_view },
                    );
                    assert(distinct_keys(entries.deep_view()));
                }
            },
            None => {
                entries.push(StoreEntry { key: key.to_owned(), value });
                proof {
                    assert(entries.deep_view().drop_last() =~= s0);
                    assert(entries.deep_view().last().key == key@);
                    assert forall|i: int, j: int|
                        0 <= i < j < entries.deep_view().len() implies entries.deep_view()[i].key
                        != entries.deep_view()[j].key by {
                        if j < entries.deep_view().len() - 1 {
                            assert(s0[i].key != s0[j].key);
                        } else {
                            assert(entries.deep_view()[i] == s0[i]);
                        }
                    }
                }
            },
        }
        self.entries = entries;
        proof {
            assert(final(self)@ =~= old(self)@.insert(key@, value@));
        }
    }

    /// The stored pairs, for a host process that persists the store: they
    /// denote exactly the store's map, so a store rebuilt from them is the
    /// same store.
    pub fn entries(&self) -> (r: &Vec<StoreEntry>)
        ensures
            map_of(r.deep_view()) == self@,
            forall|i: int|
                0 <= i < r.deep_view().len() ==> self@.contains_key(
                    (#[trigger] r.deep_view()[i]).key,
                ) && self@[r.deep_view()[i].key] == r.deep_view()[i].value,
    {
        proof {
            use_type_invariant(&*self);
            assert forall|i: int| 0 <= i < self.entries.deep_view().len() implies self@.contains_key(
                (#[trigger] self.entries.deep_view()[i]).key,
            ) && self@[self.entries.deep_view()[i].key] == self.entries.deep_view()[i].value by {
                lemma_map_of_lookup(self.entries.deep_view(), i);
            }
        }
        &self.entries
    }

    /// Rebuild a store from persisted pairs; of entries sharing one key the
    /// later wins, as in a replayed sequence of writes.
    pub fn from_entries(pairs: Vec<StoreEntry>) -> (s: SnapshotStore)
        ensures
            s@ == map_of(pairs.deep_view()),
    {
        let mut s = SnapshotStore::new();
        let mut i: usize = 0;
        while i < pairs.len()
            invariant
                i <= pairs.len(),
                s@ =~= map_of(pairs.deep_view().take(i as int)),
            decreases pairs.len() - i,
        {
            let entry = &pairs[i];
            let value = entry.value.clone();
            proof {
                assert(value@ =~= entry.value@);
            }
            s.put(entry.key.as_str(), value);
            proof {
                let t = pairs.deep_view().take(i + 1);
                assert(t.drop_last() =~= pairs.deep_view().take(i as int));
                assert(t.last() == pairs.deep_view()[i as int]);
            }
            i = i + 1;
        }
        proof {
            assert(pairs.deep_view().take(pairs.len() as int) =~= pairs.deep_view());
        }
        s
    }
}

} // verus!
