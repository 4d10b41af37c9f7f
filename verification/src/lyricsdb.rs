//! A small local store of synced lyrics, keyed by artist and title without
//! regard to case.

use vstd::prelude::*;
use crate::text::{chars_of, lowercase, string_from_chars, same_text, to_lowercase};

verus! {

/// The key under which lyrics for `artist` and `title` are kept:
/// `"{artist}|{title}"`, both lowercased.
pub open spec fn entry_key(artist: Seq<char>, title: Seq<char>) -> Seq<char> {
    lowercase(artist) + seq!['|'] + lowercase(title)
}

/// Synced lyrics by key; every key occurs once.
#[derive(Debug)]
pub struct LyricsDB {
    entries: Vec<(String, String)>,
}

/// The map that inserting `pairs` one after the other into an empty store
/// gives: a later pair wins over an earlier one with the same key.
pub open spec fn map_of(pairs: Seq<(Seq<char>, Seq<char>)>) -> Map<Seq<char>, Seq<char>>
    decreases pairs.len(),
{
    if pairs.len() == 0 {
        Map::empty()
    } else {
        map_of(pairs.drop_last()).insert(pairs.last().0, pairs.last().1)
    }
}

/// The views of a list of key and text pairs.
pub open spec fn pair_views(v: Seq<(String, String)>) -> Seq<(Seq<char>, Seq<char>)> {
    v.map_values(|e: (String, String)| (e.0@, e.1@))
}

/// No two entries hold the same key.
pub open spec fn unique_keys(entries: Seq<(String, String)>) -> bool {
    forall|i: int, j: int|
        0 <= i < j < entries.len() ==> #[trigger] entries[i].0@ != #[trigger] entries[j].0@
}

/// Entries as a map from key to text.
pub open spec fn entries_map(entries: Seq<(String, String)>) -> Map<Seq<char>, Seq<char>> {
    Map::new(
        |k: Seq<char>| exists|i: int| 0 <= i < entries.len() && entries[i].0@ == k,
        |k: Seq<char>| entries[choose|i: int| 0 <= i < entries.len() && entries[i].0@ == k].1@,
    )
}

/// The index of the entry with key `key`, if there is one.
fn find_entry(entries: &Vec<(String, String)>, key: &str) -> (r: Option<usize>)
    ensures
        match r {
            Some(i) => i < entries@.len() && entries@[i as int].0@ == key@,
            None => !entries_map(entries@).dom().contains(key@),
        },
{
    let mut i: usize = 0;
    while i < entries.len()
        invariant
            i <= entries@.len(),
            forall|j: int| 0 <= j < i ==> entries@[j].0@ != key@,
        decreases entries@.len() - i,
    {
        if same_text(entries[i].0.as_str(), key) {
            return Some(i);
        }
        i = i + 1;
    }
    None
}

impl LyricsDB {
    /// Every key is held by one entry.
    #[verifier::type_invariant]
    closed spec fn wf(self) -> bool {
        unique_keys(self.entries@)
    }

    /// The stored lyrics as a map from key to text.
    pub closed spec fn as_map(&self) -> Map<Seq<char>, Seq<char>> {
        entries_map(self.entries@)
    }

    /// An empty store.
    pub fn new() -> (db: Self)
        ensures
            db@ == Map::<Seq<char>, Seq<char>>::empty(),
    {
        let db = LyricsDB { entries: Vec::new() };
        assert(db.as_map() =~= Map::<Seq<char>, Seq<char>>::empty());
        db
    }

    /// A store holding `pairs` of key and text, inserted in order.
    pub fn from_entries(pairs: Vec<(String, String)>) -> (db: Self)
        ensures
            db@ == map_of(pair_views(pairs@)),
    {
        let mut db = LyricsDB::new();
        let mut i: usize = 0;
        while i < pairs.len()
            invariant
                i <= pairs@.len(),
                db@ == map_of(pair_views(pairs@.subrange(0, i as int))),
            decreases pairs@.len() - i,
        {
            let k = pairs[i].0.clone();
            let v = pairs[i].1.clone();
            db.set_entry(k, v);
            let ghost pre = pairs@.subrange(0, i as int);
            i = i + 1;
            assert(pair_views(pairs@.subrange(0, i as int)).drop_last() =~= pair_views(pre));
        }
        assert(pairs@.subrange(0, pairs@.len() as int) =~= pairs@);
        db
    }

    /// The stored entries as key and text pairs, each key once.
    pub fn entries(&self) -> (r: Vec<(String, String)>)
        ensures
            forall|i: int| 0 <= i < r@.len() ==> #[trigger] self@.dom().contains(r@[i].0@)
                && self@[r@[i].0@] == r@[i].1@,
            forall|k: Seq<char>| #[trigger] self@.dom().contains(k) ==> exists|i: int|
                0 <= i < r@.len() && r@[i].0@ == k,
            forall|i: int, j: int|
                0 <= i < j < r@.len() ==> #[trigger] r@[i].0@ != #[trigger] r@[j].0@,
    {
        proof {
            use_type_invariant(self);
        }
        let mut r: Vec<(String, String)> = Vec::new();
        let mut n: usize = 0;
        while n < self.entries.len()
            invariant
                n <= self.entries@.len(),
                r@.len() == n,
                forall|j: int| 0 <= j < n ==> #[trigger] r@[j].0@ == self.entries@[j].0@ && r@[j].1@ == self.entries@[j].1@,
            decreases self.entries@.len() - n,
        {
            r.push((self.entries[n].0.clone(), self.entries[n].1.clone()));
            n = n + 1;
        }
        assert forall|i: int| 0 <= i < r@.len() implies #[trigger] self@.dom().contains(r@[i].0@)
            && self@[r@[i].0@] == r@[i].1@ by {
            let k = r@[i].0@;
            let c = choose|j: int| 0 <= j < self.entries@.len() && self.entries@[j].0@ == k;
            assert(c == i);
        }
        assert forall|i: int, j: int|
            0 <= i < j < r@.len() implies #[trigger] r@[i].0@ != #[trigger] r@[j].0@ by {
            assert(r@[i].0@ == self.entries@[i].0@);
            assert(r@[j].0@ == self.entries@[j].0@);
        }
        assert forall|k: Seq<char>| #[trigger] self@.dom().contains(k) implies exists|i: int|
            0 <= i < r@.len() && r@[i].0@ == k by {
            let c = choose|j: int| 0 <= j < self.entries@.len() && self.entries@[j].0@ == k;
            assert(r@[c].0@ == self.entries@[c].0@);
        }
        r
    }

    /// The lyrics stored for `artist` and `title`, compared without regard
    /// to case.
    pub fn get(&self, artist: &str, title: &str) -> (r: Option<String>)
        ensures
            match r {
                Some(s) => self@.dom().contains(entry_key(artist@, title@)) && s@
                    == self@[entry_key(artist@, title@)],
                None => !self@.dom().contains(entry_key(artist@, title@)),
            },
    {
        proof {
            use_type_invariant(self);
        }
        let key = make_key(artist, title);
        match find_entry(&self.entries, key.as_str()) {
            Some(i) => {
                let ghost k = key@;
                let ghost c = choose|j: int|
                    0 <= j < self.entries@.len() && self.entries@[j].0@ == k;
                assert(c == i as int);
                Some(self.entries[i].1.clone())
            },
            None => None,
        }
    }

    /// Stores `synced` for `artist` and `title`, replacing what was stored
    /// under the same key.
    pub fn insert(&mut self, artist: &str, title: &str, synced: &str)
        ensures
            final(self)@ == old(self)@.insert(entry_key(artist@, title@), synced@),
    {
        let key = make_key(artist, title);
        let value = string_from_chars(chars_of(synced).as_slice());
        self.set_entry(key, value);
    }

    /// Stores `value` under `key`, replacing what was stored there.
    fn set_entry(&mut self, key: String, value: String)
        ensures
            final(self)@ == old(self)@.insert(key@, value@),
    {
        proof {
            use_type_invariant(&*self);
        }
        let mut entries: Vec<(String, String)> = Vec::new();
        std::mem::swap(&mut entries, &mut self.entries);
        set_in(&mut entries, key, value);
        self.entries = entries;
    }
}

/// Stores `value` under `key` in `entries`, replacing what was stored there.
fn set_in(entries: &mut Vec<(String, String)>, key: String, value: String)
    requires
        unique_keys(old(entries)@),
    ensures
        unique_keys(final(entries)@),
        entries_map(final(entries)@) == entries_map(old(entries)@).insert(key@, value@),
{
    let ghost k = key@;
    let ghost val = value@;
    let ghost before = entries_map(entries@);
    let ghost old_entries = entries@;
    let found = find_entry(entries, key.as_str());
    let ghost slot: int = match found {
        Some(i) => i as int,
        None => old_entries.len() as int,
    };
    match found {
        Some(i) => {
            entries.set(i, (key, value));
        },
        None => {
            entries.push((key, value));
        },
    }
    assert(entries@[slot].0@ == k && entries@[slot].1@ == val);
    assert(forall|j: int| 0 <= j < entries@.len() && j != slot
        ==> #[trigger] entries@[j] == old_entries[j]);
    assert forall|a: int, b: int|
        0 <= a < b < entries@.len() implies #[trigger] entries@[a].0@
        != #[trigger] entries@[b].0@ by {
        if a != slot && b != slot {
            assert(old_entries[a].0@ != old_entries[b].0@);
        } else if a == slot {
            assert(entries@[b] == old_entries[b]);
            if slot < old_entries.len() {
                assert(old_entries[a].0@ != old_entries[b].0@);
            }
        } else {
            assert(entries@[a] == old_entries[a]);
            if slot < old_entries.len() {
                assert(old_entries[a].0@ != old_entries[b].0@);
            }
        }
    }
    assert forall|q: Seq<char>| #[trigger] entries_map(entries@).dom().contains(q) == before.insert(
        k,
        val,
    ).dom().contains(q) by {
        if q != k {
            if exists|j: int| 0 <= j < old_entries.len() && old_entries[j].0@ == q {
                let j = choose|j: int| 0 <= j < old_entries.len() && old_entries[j].0@ == q;
                assert(j != slot);
                assert(entries@[j].0@ == q);
            }
            if exists|j: int| 0 <= j < entries@.len() && entries@[j].0@ == q {
                let j = choose|j: int|
                    0 <= j < entries@.len() && entries@[j].0@ == q;
                assert(j != slot);
                assert(old_entries[j].0@ == q);
            }
        }
    }
    assert forall|q: Seq<char>| #[trigger] entries_map(entries@).dom().contains(q) implies entries_map(entries@)[q]
        == before.insert(k, val)[q] by {
        let c = choose|j: int| 0 <= j < entries@.len() && entries@[j].0@ == q;
        if q == k {
            if c != slot {
                assert(old_entries[c].0@ == k);
                assert(slot < old_entries.len());
                assert(old_entries[slot].0@ == k);
            }
        } else {
            assert(c != slot);
            let d = choose|j: int| 0 <= j < old_entries.len() && old_entries[j].0@ == q;
            assert(old_entries[c].0@ == q);
            if c != d {
                if c < d {
                    assert(old_entries[c].0@ != old_entries[d].0@);
                } else {
                    assert(old_entries[d].0@ != old_entries[c].0@);
                }
            }
        }
    }
    assert(entries_map(entries@) =~= before.insert(k, val));
}

impl View for LyricsDB {
    type V = Map<Seq<char>, Seq<char>>;

    open spec fn view(&self) -> Map<Seq<char>, Seq<char>> {
        self.as_map()
    }
}

impl Default for LyricsDB {
    fn default() -> (db: Self)
        ensures
            db@ == Map::<Seq<char>, Seq<char>>::empty(),
    {
        LyricsDB::new()
    }
}

/// Builds the key for `artist` and `title`.
fn make_key(artist: &str, title: &str) -> (r: String)
    ensures
        r@ == entry_key(artist@, title@),
{
    let a = to_lowercase(artist);
    let t = to_lowercase(title);
    let mut v = chars_of(a.as_str());
    v.push('|');
    let tv = chars_of(t.as_str());
    let mut i: usize = 0;
    let ghost base = v@;
    while i < tv.len()
        invariant
            i <= tv@.len(),
            v@ == base + tv@.subrange(0, i as int),
        decreases tv@.len() - i,
    {
        v.push(tv[i]);
        i = i + 1;
        assert(v@ =~= base + tv@.subrange(0, i as int));
    }
    assert(tv@.subrange(0, tv@.len() as int) =~= tv@);
    assert(v@ =~= entry_key(artist@, title@));
    string_from_chars(v.as_slice())
}

/// Reading back a write: after `insert(artist, title, synced)`, the store
/// holds `synced` under that artist and title, also when they are spelled in
/// another case, and every other key keeps what it held.
pub proof fn lemma_get_after_insert(
    before: Map<Seq<char>, Seq<char>>,
    artist: Seq<char>,
    title: Seq<char>,
    synced: Seq<char>,
    other: Seq<char>,
    artist2: Seq<char>,
    title2: Seq<char>,
)
    requires
        lowercase(artist2) == lowercase(artist),
        lowercase(title2) == lowercase(title),
    ensures
        ({
            let after = before.insert(entry_key(artist, title), synced);
            &&& after.dom().contains(entry_key(artist2, title2))
            &&& after[entry_key(artist2, title2)] == synced
            &&& other != entry_key(artist, title) ==> (after.dom().contains(other)
                == before.dom().contains(other) && (before.dom().contains(other) ==> after[other]
                == before[other]))
        }),
{
}

} // verus!
