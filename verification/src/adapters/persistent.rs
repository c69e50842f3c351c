//! The persistent adapter's logic: where an entry's file lives, what the
//! file holds, and the in-memory index of entries written or loaded.
//!
//! The files themselves are read, written and deleted by the caller; this
//! module decides names, contents and bookkeeping.

use vstd::prelude::*;
use vstd::string::StrSliceExecFns;
use crate::adapters::hot_tier::{has_key, key_index, keys_unique, lemma_push_unique, slot_view, Slot};
use crate::domain::time::Timestamp;
use crate::domain::value_objects::{CacheKey, CacheTier, CacheValue, Ttl};

verus! {

/// The text of a record file: the key, a newline, the value.
pub open spec fn record_text(key: Seq<char>, value: Seq<char>) -> Seq<char> {
    key + seq!['\n'] + value
}

/// Whether `d` is the position of the first newline of `c`.
pub open spec fn is_first_newline(c: Seq<char>, d: int) -> bool {
    &&& 0 <= d < c.len()
    &&& c[d] == '\n'
    &&& forall|j: int| 0 <= j < d ==> c[j] != '\n'
}

/// What a record file's text holds: the text before its first newline as
/// the key and the text after it as the value; nothing without a newline.
pub open spec fn record_parts(c: Seq<char>) -> Option<(Seq<char>, Seq<char>)> {
    if exists|d: int| is_first_newline(c, d) {
        let d = choose|d: int| is_first_newline(c, d);
        Some((c.take(d), c.skip(d + 1)))
    } else {
        None
    }
}

/// Whether a file name has the extension `cache`: it ends in `.cache`
/// with something before the dot.
pub open spec fn is_cache_name(name: Seq<char>) -> bool {
    name.len() >= 7 && name.skip(name.len() - 6) == seq!['.', 'c', 'a', 'c', 'h', 'e']
}

/// Whether a clear of `tier` deletes the stored files: for every tier and
/// for L3.
pub open spec fn clears_files(tier: Option<CacheTier>) -> bool {
    tier is None || tier == Some(CacheTier::L3)
}

/// The index after `slot` is recorded: it replaces the slot of its key, or
/// is added at the end.
pub open spec fn index_put(s: Seq<Slot>, slot: Slot) -> Seq<Slot> {
    if has_key(s, slot.0) {
        s.update(key_index(s, slot.0), slot)
    } else {
        s.push(slot)
    }
}

/// The index after `k` is forgotten.
pub open spec fn index_drop(s: Seq<Slot>, k: Seq<char>) -> Seq<Slot> {
    if has_key(s, k) {
        s.remove(key_index(s, k))
    } else {
        s
    }
}

/// The index after the record texts `contents` are loaded at `now`, in
/// order; texts without a newline are skipped.
pub open spec fn index_loaded(s: Seq<Slot>, contents: Seq<Seq<char>>, now: u128) -> Seq<Slot>
    decreases contents.len(),
{
    if contents.len() == 0 {
        s
    } else {
        let before = index_loaded(s, contents.drop_last(), now);
        match record_parts(contents.last()) {
            Some(p) => index_put(before, (p.0, p.1, now)),
            None => before,
        }
    }
}

/// How many of the texts `contents` are records.
pub open spec fn records_in(contents: Seq<Seq<char>>) -> nat
    decreases contents.len(),
{
    if contents.len() == 0 {
        0
    } else {
        records_in(contents.drop_last()) + if record_parts(contents.last()) is Some { 1nat } else { 0nat }
    }
}

/// A record gives back the key and value it was written from, where the
/// key holds no newline.
pub proof fn lemma_record_round_trip(key: Seq<char>, value: Seq<char>)
    requires
        forall|i: int| 0 <= i < key.len() ==> key[i] != '\n',
    ensures
        record_parts(record_text(key, value)) == Some((key, value)),
{
    let c = record_text(key, value);
    let d = key.len() as int;
    assert(c[d] == '\n');
    assert forall|j: int| 0 <= j < d implies c[j] != '\n' by {
        assert(c[j] == key[j]);
    }
    assert(is_first_newline(c, d));
    assert forall|e: int| is_first_newline(c, e) implies e == d by {
        if e < d {
            assert(c[e] == key[e]);
        } else if e > d {
            assert(c[d] == '\n');
        }
    }
    assert(c.take(d) =~= key);
    assert(c.skip(d + 1) =~= value);
}

/// The value a record file's text holds, if it is a record.
pub open spec fn record_value(c: Seq<char>) -> Option<Seq<char>> {
    match record_parts(c) {
        Some(p) => Some(p.1),
        None => None,
    }
}

/// A read after a write gives back the value written: the file that a set
/// of `value` under `key` writes holds `value`, where the key has no
/// newline (the value may have any).
pub proof fn lemma_get_after_set(key: Seq<char>, value: Seq<char>)
    requires
        forall|i: int| 0 <= i < key.len() ==> key[i] != '\n',
    ensures
        record_value(record_text(key, value)) == Some(value),
{
    lemma_record_round_trip(key, value);
}

/// The state of a persistent cache's bookkeeping.
pub struct PersistentView {
    /// Entries written or loaded: key, value, when.
    pub index: Seq<Slot>,
    /// The directory of the files.
    pub base_path: Seq<char>,
}

/// A file-based cache: one file per key under a base directory.
pub struct PersistentCache {
    index: Vec<(String, String, u128)>,
    base_path: String,
    default_ttl: Ttl,
}

impl View for PersistentCache {
    type V = PersistentView;

    closed spec fn view(&self) -> PersistentView {
        PersistentView {
            index: self.index@.map_values(|t: (String, String, u128)| slot_view(t)),
            base_path: self.base_path@,
        }
    }
}

/// The position of `key` among `entries`, if it is there.
fn find_entry(entries: &Vec<(String, String, u128)>, key: &String) -> (r: Option<usize>)
    ensures
        match r {
            Some(i) => i < entries@.len() && entries@[i as int].0@ == key@,
            None => forall|i: int| 0 <= i < entries@.len() ==> #[trigger] entries@[i].0@ != key@,
        },
{
    let mut i: usize = 0;
    while i < entries.len()
        invariant
            0 <= i <= entries@.len(),
            forall|j: int| 0 <= j < i ==> #[trigger] entries@[j].0@ != key@,
        decreases entries@.len() - i,
    {
        if entries[i].0 == *key {
            return Some(i);
        }
        i = i + 1;
    }
    None
}

/// The record text for `key` and `value`: key, newline, value.
pub fn encode_record(key: &CacheKey, value: &CacheValue) -> (r: String)
    ensures
        r@ == record_text(key@, value@),
{
    proof { reveal_strlit("\n"); }
    String::from_str(key.as_str()).concat("\n").concat(value.as_str())
}

/// The key and value a record text holds, split at its first newline.
pub fn parse_record(content: &str) -> (r: Option<(CacheKey, CacheValue)>)
    ensures
        match r {
            Some(p) => record_parts(content@) == Some((p.0@, p.1@)),
            None => record_parts(content@) is None,
        },
{
    let n = content.unicode_len();
    let mut i: usize = 0;
    while i < n
        invariant
            n == content@.len(),
            0 <= i <= n,
            forall|j: int| 0 <= j < i ==> content@[j] != '\n',
        decreases n - i,
    {
        if content.get_char(i) == '\n' {
            assert(is_first_newline(content@, i as int));
            assert forall|d: int| is_first_newline(content@, d) implies d == i by {
                if d < i {
                } else if d > i {
                    assert(content@[i as int] == '\n');
                }
            }
            let key = CacheKey::new(content.substring_char(0, i));
            let value = CacheValue::new(content.substring_char(i + 1, n));
            assert(content@.subrange(0, i as int) == content@.take(i as int));
            assert(content@.subrange(i + 1, n as int) == content@.skip(i + 1));
            return Some((key, value));
        }
        i = i + 1;
    }
    assert(!exists|d: int| is_first_newline(content@, d));
    None
}

/// The value a read gets from the text of a key's file: the text after
/// its first newline, or nothing where there is none.
pub fn stored_value(content: &str) -> (r: Option<CacheValue>)
    ensures
        match r {
            Some(v) => record_value(content@) == Some(v@),
            None => record_value(content@) is None,
        },
{
    match parse_record(content) {
        Some((_key, value)) => Some(value),
        None => None,
    }
}

/// Whether a file name has the extension `cache`.
pub fn is_cache_file_name(name: &str) -> (r: bool)
    ensures
        r == is_cache_name(name@),
{
    let n = name.unicode_len();
    if n < 7 {
        return false;
    }
    let r = name.get_char(n - 6) == '.' && name.get_char(n - 5) == 'c' && name.get_char(n - 4) == 'a'
        && name.get_char(n - 3) == 'c' && name.get_char(n - 2) == 'h' && name.get_char(n - 1) == 'e';
    proof {
        let tail = name@.skip(n - 6);
        if r {
            assert(tail =~= seq!['.', 'c', 'a', 'c', 'h', 'e']);
        } else {
            if tail == seq!['.', 'c', 'a', 'c', 'h', 'e'] {
                assert(tail[0] == name@[n - 6]);
                assert(tail[1] == name@[n - 5]);
                assert(tail[2] == name@[n - 4]);
                assert(tail[3] == name@[n - 3]);
                assert(tail[4] == name@[n - 2]);
                assert(tail[5] == name@[n - 1]);
            }
        }
    }
    r
}

/// The texts of a list of names.
pub open spec fn names_view(v: Seq<String>) -> Seq<Seq<char>> {
    v.map_values(|n: String| n@)
}

/// Whether a file name has the extension `cache`, as a predicate.
pub open spec fn cache_name() -> spec_fn(Seq<char>) -> bool {
    |n: Seq<char>| is_cache_name(n)
}

/// The names among `names` that have the extension `cache`, in order: the
/// files a clear deletes, whose number it reports.
pub fn cache_file_names(names: &Vec<String>) -> (r: Vec<String>)
    ensures
        names_view(r@) == names_view(names@).filter(cache_name()),
{
    let ghost all = names_view(names@);
    let mut out: Vec<String> = Vec::new();
    let mut i: usize = 0;
    proof {
        assert(all.take(0) =~= Seq::<Seq<char>>::empty());
        reveal(Seq::filter);
        assert(names_view(out@) =~= all.take(0).filter(cache_name()));
    }
    while i < names.len()
        invariant
            0 <= i <= names@.len(),
            all == names_view(names@),
            names_view(out@) == all.take(i as int).filter(cache_name()),
        decreases names@.len() - i,
    {
        let ghost before = out@;
        proof {
            assert(all.take(i + 1) =~= all.take(i as int).push(names@[i as int]@));
            all.take(i as int).lemma_filter_push(names@[i as int]@, cache_name());
        }
        if is_cache_file_name(names[i].as_str()) {
            out.push(names[i].clone());
            assert(names_view(out@) =~= names_view(before).push(names@[i as int]@));
        }
        i = i + 1;
    }
    assert(all.take(names@.len() as int) =~= all);
    out
}

/// Whether a clear of `tier` deletes the stored files.
pub fn clears_storage(tier: Option<CacheTier>) -> (r: bool)
    ensures
        r == clears_files(tier),
{
    match tier {
        None => true,
        Some(CacheTier::L3) => true,
        Some(_) => false,
    }
}

impl PersistentCache {
    /// The bookkeeping is sound: the index holds each key once.
    pub closed spec fn wf(&self) -> bool {
        keys_unique(self@.index)
    }

    /// A cache keeping its files under `base_path`, with nothing indexed
    /// and a default TTL of one hour. The directory is not touched.
    pub fn new(base_path: &str) -> (r: PersistentCache)
        ensures
            r.wf(),
            r@.index == Seq::<Slot>::empty(),
            r@.base_path == base_path@,
    {
        let r = PersistentCache { index: Vec::new(), base_path: String::from_str(base_path), default_ttl: Ttl::from_secs(3600) };
        assert(r@.index =~= Seq::<Slot>::empty());
        r
    }

    /// The directory of the files.
    pub fn base_path(&self) -> (r: &str)
        ensures
            r@ == self@.base_path,
    {
        self.base_path.as_str()
    }

    /// The file of `key`: `<base>/<key>.cache`.
    pub fn file_path(&self, key: &CacheKey) -> (r: String)
        ensures
            r@ == self@.base_path + "/"@ + key@ + ".cache"@,
    {
        String::from_str(self.base_path.as_str()).concat("/").concat(key.as_str()).concat(".cache")
    }

    /// Records that `value` was stored under `key` at `now`.
    pub fn note_set(&mut self, key: &CacheKey, value: &CacheValue, now: Timestamp)
        requires
            old(self).wf(),
        ensures
            final(self).wf(),
            final(self)@.base_path == old(self)@.base_path,
            final(self)@.index == index_put(old(self)@.index, (key@, value@, now@)),
    {
        let ghost s0 = self@.index;
        let k = key.to_owned_string();
        let found = find_entry(&self.index, &k);
        let entry = (k, value.to_owned_string(), now.as_nanos());
        let ghost slot = slot_view(entry);
        match found {
            Some(i) => {
                proof {
                    assert(s0[i as int].0 == key@);
                    assert(has_key(s0, key@));
                    assert(key_index(s0, key@) == i as int);
                }
                self.index.set(i, entry);
                proof {
                    let s1 = s0.update(i as int, slot);
                    assert(self@.index =~= s1);
                    assert forall|a: int, b: int| 0 <= a < s1.len() && 0 <= b < s1.len() && a != b implies #[trigger] s1[a].0 != #[trigger] s1[b].0 by {
                        assert(s1[a].0 == s0[a].0 && s1[b].0 == s0[b].0);
                    }
                }
            },
            None => {
                proof {
                    assert(!has_key(s0, key@)) by {
                        if has_key(s0, key@) {
                            let j = choose|j: int| 0 <= j < s0.len() && #[trigger] s0[j].0 == key@;
                            assert(self.index@[j].0@ == key@);
                        }
                    }
                    lemma_push_unique(s0, slot);
                }
                self.index.push(entry);
                assert(self@.index =~= s0.push(slot));
            },
        }
    }

    /// Records that `key` was removed.
    pub fn note_remove(&mut self, key: &CacheKey)
        requires
            old(self).wf(),
        ensures
            final(self).wf(),
            final(self)@.base_path == old(self)@.base_path,
            final(self)@.index == index_drop(old(self)@.index, key@),
    {
        let ghost s0 = self@.index;
        let k = key.to_owned_string();
        let found = find_entry(&self.index, &k);
        match found {
            Some(i) => {
                proof {
                    assert(s0[i as int].0 == key@);
                    assert(has_key(s0, key@));
                    assert(key_index(s0, key@) == i as int);
                }
                self.index.remove(i);
                proof {
                    let s1 = s0.remove(i as int);
                    assert(self@.index =~= s1);
                    assert forall|a: int, b: int| 0 <= a < s1.len() && 0 <= b < s1.len() && a != b implies #[trigger] s1[a].0 != #[trigger] s1[b].0 by {
                        let a0 = if a < i { a } else { a + 1 };
                        let b0 = if b < i { b } else { b + 1 };
                        assert(s1[a] == s0[a0] && s1[b] == s0[b0]);
                    }
                }
            },
            None => {
                proof {
                    assert(!has_key(s0, key@)) by {
                        if has_key(s0, key@) {
                            let j = choose|j: int| 0 <= j < s0.len() && #[trigger] s0[j].0 == key@;
                            assert(self.index@[j].0@ == key@);
                        }
                    }
                }
            },
        }
    }

    /// Records that every stored entry was deleted.
    pub fn note_clear(&mut self)
        ensures
            final(self).wf(),
            final(self)@.base_path == old(self)@.base_path,
            final(self)@.index == Seq::<Slot>::empty(),
    {
        self.index.clear();
        assert(self@.index =~= Seq::<Slot>::empty());
    }

    /// A clear of `tier`, given the names of the files in the directory:
    /// for every tier and for L3, the files with the extension `cache` are
    /// the ones to delete, in order, and their number is what the clear
    /// reports, and the index is emptied; for L1 and L2 nothing is deleted
    /// and the index is kept.
    pub fn clear_files(&mut self, names: &Vec<String>, tier: Option<CacheTier>) -> (r: Vec<String>)
        requires
            old(self).wf(),
        ensures
            final(self).wf(),
            final(self)@.base_path == old(self)@.base_path,
            clears_files(tier) ==> names_view(r@) == names_view(names@).filter(cache_name())
                && final(self)@.index == Seq::<Slot>::empty(),
            !clears_files(tier) ==> r@.len() == 0 && final(self)@ == old(self)@,
    {
        if clears_storage(tier) {
            let doomed = cache_file_names(names);
            self.note_clear();
            doomed
        } else {
            Vec::new()
        }
    }

    /// Indexes the record texts `contents`, read at `now`, in order, and
    /// says how many were records.
    pub fn load_records(&mut self, contents: &Vec<String>, now: Timestamp) -> (r: usize)
        requires
            old(self).wf(),
        ensures
            final(self).wf(),
            final(self)@.base_path == old(self)@.base_path,
            final(self)@.index == index_loaded(old(self)@.index, contents@.map_values(|c: String| c@), now@),
            r == records_in(contents@.map_values(|c: String| c@)),
    {
        let ghost s0 = self@.index;
        let ghost texts = contents@.map_values(|c: String| c@);
        let mut count: usize = 0;
        let mut i: usize = 0;
        while i < contents.len()
            invariant
                self.wf(),
                self@.base_path == old(self)@.base_path,
                texts == contents@.map_values(|c: String| c@),
                0 <= i <= contents@.len(),
                self@.index == index_loaded(s0, texts.take(i as int), now@),
                count == records_in(texts.take(i as int)),
                count <= i,
            decreases contents@.len() - i,
        {
            proof {
                assert(texts.take(i + 1).drop_last() =~= texts.take(i as int));
                assert(texts.take(i + 1).last() == contents@[i as int]@);
            }
            match parse_record(contents[i].as_str()) {
                Some((key, value)) => {
                    self.note_set(&key, &value, now);
                    count = count + 1;
                },
                None => {},
            }
            i = i + 1;
        }
        assert(texts.take(contents@.len() as int) =~= texts);
        count
    }
}

} // verus!
