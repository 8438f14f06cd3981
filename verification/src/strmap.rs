//! A string-keyed map stored as a vector of entries sorted by key.
//!
//! Daemon objects carry their properties as maps from string keys to values,
//! kept in key order so that scans ("first key ending in `.name`") and
//! display are stable. The map's view is a `Map<Seq<char>, V>`; the key
//! order is exposed through `key_seq` for contracts that depend on it.

use vstd::prelude::*;
use crate::text::CharsOrder;
use crate::text::chars_lt;
use crate::text::chars_vec;
use crate::text::cmp_chars;
use crate::text::lemma_chars_lt_irrefl;
use crate::text::lemma_chars_lt_trans;

verus! {

/// Entries stand in strictly increasing key order.
pub open spec fn sorted_by_key<V>(s: Seq<(String, V)>) -> bool {
    forall|i: int, j: int| 0 <= i < j < s.len() ==> chars_lt(#[trigger] s[i].0@, #[trigger] s[j].0@)
}

/// Some entry of `s` has key `k`.
pub open spec fn seq_contains_key<V>(s: Seq<(String, V)>, k: Seq<char>) -> bool {
    exists|i: int| 0 <= i < s.len() && (#[trigger] s[i]).0@ == k
}

/// The index of the entry with key `k` (meaningful only when one exists).
pub open spec fn seq_key_index<V>(s: Seq<(String, V)>, k: Seq<char>) -> int {
    choose|i: int| 0 <= i < s.len() && (#[trigger] s[i]).0@ == k
}

/// The map that an entry sequence denotes.
pub open spec fn entries_map<V>(s: Seq<(String, V)>) -> Map<Seq<char>, V> {
    Map::new(|k: Seq<char>| seq_contains_key(s, k), |k: Seq<char>| s[seq_key_index(s, k)].1)
}

/// In a sorted entry sequence, the entry at `i` is the one its key finds.
pub proof fn lemma_key_at<V>(s: Seq<(String, V)>, i: int)
    requires
        sorted_by_key(s),
        0 <= i < s.len(),
    ensures
        seq_contains_key(s, s[i].0@),
        seq_key_index(s, s[i].0@) == i,
        entries_map(s).contains_key(s[i].0@),
        entries_map(s)[s[i].0@] == s[i].1,
{
    assert(seq_contains_key(s, s[i].0@));
    let j = seq_key_index(s, s[i].0@);
    if j < i {
        assert(chars_lt(s[j].0@, s[i].0@));
        lemma_chars_lt_irrefl(s[i].0@);
    }
    if i < j {
        assert(chars_lt(s[i].0@, s[j].0@));
        lemma_chars_lt_irrefl(s[i].0@);
    }
}

/// A map from string keys to values of type `V`, holding its entries in
/// strictly increasing key order.
pub struct StrMap<V> {
    entries: Vec<(String, V)>,
}

impl<V> View for StrMap<V> {
    type V = Map<Seq<char>, V>;

    closed spec fn view(&self) -> Map<Seq<char>, V> {
        entries_map(self.entries@)
    }
}

impl<V> StrMap<V> {
    /// The stored entries, for contracts that speak of storage order.
    pub closed spec fn entry_seq(self) -> Seq<(String, V)> {
        self.entries@
    }

    /// The keys in storage order (increasing under `chars_lt`).
    pub closed spec fn key_seq(self) -> Seq<Seq<char>> {
        self.entries@.map(|i: int, e: (String, V)| e.0@)
    }

    /// The entries are sorted; every operation preserves this.
    pub closed spec fn wf(self) -> bool {
        sorted_by_key(self.entries@)
    }

    /// An empty map.
    pub fn new() -> (m: Self)
        ensures
            m.wf(),
            m@ == Map::<Seq<char>, V>::empty(),
            m.entry_seq().len() == 0,
    {
        let m = StrMap { entries: Vec::new() };
        proof {
            assert(m@ =~= Map::<Seq<char>, V>::empty());
        }
        m
    }

    /// How many entries the map holds.
    pub fn len(&self) -> (n: usize)
        ensures
            n == self.entry_seq().len(),
            n == self.key_seq().len(),
    {
        self.entries.len()
    }

    /// Whether the map holds no entry.
    pub fn is_empty(&self) -> (r: bool)
        ensures
            r == (self.entry_seq().len() == 0),
    {
        self.entries.len() == 0
    }

    /// The entry at storage position `i`, in key order.
    pub fn entry_at(&self, i: usize) -> (kv: (&String, &V))
        requires
            self.wf(),
            i < self.entry_seq().len(),
        ensures
            kv.0@ == self.key_seq()[i as int],
            *kv.1 == self.entry_seq()[i as int].1,
            self@.contains_key(kv.0@),
            self@[kv.0@] == *kv.1,
    {
        proof {
            lemma_key_at(self.entries@, i as int);
        }
        (&self.entries[i].0, &self.entries[i].1)
    }

    /// Looks a key up.
    pub fn get(&self, key: &str) -> (r: Option<&V>)
        requires
            self.wf(),
        ensures
            match r {
                Some(v) => self@.contains_key(key@) && *v == self@[key@],
                None => !self@.contains_key(key@),
            },
    {
        let kv = chars_vec(key);
        let mut i: usize = 0;
        while i < self.entries.len()
            invariant
                self.wf(),
                kv@ == key@,
                i <= self.entries@.len(),
                forall|j: int| 0 <= j < i ==> (#[trigger] self.entries@[j]).0@ != key@,
            decreases self.entries@.len() - i,
        {
            let ec = chars_vec(self.entries[i].0.as_str());
            if matches!(cmp_chars(&ec, &kv), CharsOrder::Equal) {
                proof {
                    lemma_key_at(self.entries@, i as int);
                }
                return Some(&self.entries[i].1);
            }
            i = i + 1;
        }
        None
    }

    /// Whether the map holds an entry for `key`.
    pub fn contains_key(&self, key: &str) -> (r: bool)
        requires
            self.wf(),
        ensures
            r == self@.contains_key(key@),
    {
        matches!(self.get(key), Some(_))
    }

    /// Inserts or replaces the entry for `key`.
    pub fn insert(&mut self, key: String, value: V)
        requires
            old(self).wf(),
        ensures
            final(self).wf(),
            final(self)@ == old(self)@.insert(key@, value),
    {
        let kv = chars_vec(key.as_str());
        let mut i: usize = 0;
        loop
            invariant
                *self == *old(self),
                self.wf(),
                kv@ == key@,
                i <= self.entries@.len(),
                forall|j: int| 0 <= j < i ==> chars_lt((#[trigger] self.entries@[j]).0@, key@),
            ensures
                *self == *old(self),
                i <= self.entries@.len(),
                forall|j: int| 0 <= j < i ==> chars_lt((#[trigger] self.entries@[j]).0@, key@),
                i < self.entries@.len() ==> chars_lt(key@, self.entries@[i as int].0@),
            decreases self.entries@.len() - i,
        {
            if i == self.entries.len() {
                break ;
            }
            let ec = chars_vec(self.entries[i].0.as_str());
            match cmp_chars(&ec, &kv) {
                CharsOrder::Less => {
                    i = i + 1;
                },
                CharsOrder::Equal => {
                    proof {
                        lemma_key_at(self.entries@, i as int);
                    }
                    self.entries.set(i, (key, value));
                    proof {
                        lemma_map_after_update(old(self).entries@, self.entries@, i as int);
                    }
                    return ;
                },
                CharsOrder::Greater => {
                    break ;
                },
            }
        }
        proof {
            assert forall|j: int| i <= j < self.entries@.len() implies chars_lt(
                key@,
                (#[trigger] self.entries@[j]).0@,
            ) by {
                if i < j {
                    assert(chars_lt(self.entries@[i as int].0@, self.entries@[j].0@));
                    lemma_chars_lt_trans(key@, self.entries@[i as int].0@, self.entries@[j].0@);
                }
            }
        }
        self.entries.insert(i, (key, value));
        proof {
            lemma_map_after_insert(old(self).entries@, self.entries@, i as int);
        }
    }

    /// Removes the entry for `key`, returning its value if one was held.
    pub fn remove(&mut self, key: &str) -> (r: Option<V>)
        requires
            old(self).wf(),
        ensures
            final(self).wf(),
            final(self)@ == old(self)@.remove(key@),
            match r {
                Some(v) => old(self)@.contains_key(key@) && v == old(self)@[key@],
                None => !old(self)@.contains_key(key@),
            },
    {
        let kv = chars_vec(key);
        let mut i: usize = 0;
        while i < self.entries.len()
            invariant
                *self == *old(self),
                self.wf(),
                kv@ == key@,
                i <= self.entries@.len(),
                forall|j: int| 0 <= j < i ==> (#[trigger] self.entries@[j]).0@ != key@,
            decreases self.entries@.len() - i,
        {
            let ec = chars_vec(self.entries[i].0.as_str());
            if matches!(cmp_chars(&ec, &kv), CharsOrder::Equal) {
                proof {
                    lemma_key_at(self.entries@, i as int);
                }
                let e = self.entries.remove(i);
                proof {
                    lemma_map_after_remove(old(self).entries@, self.entries@, i as int);
                }
                return Some(e.1);
            }
            i = i + 1;
        }
        proof {
            assert(old(self)@.remove(key@) =~= old(self)@);
        }
        None
    }

    /// Removes every entry.
    pub fn clear(&mut self)
        ensures
            final(self).wf(),
            final(self)@ == Map::<Seq<char>, V>::empty(),
            final(self).entry_seq().len() == 0,
    {
        self.entries.clear();
        proof {
            assert(self@ =~= Map::<Seq<char>, V>::empty());
        }
    }
}

impl StrMap<String> {
    /// A copy of the map, equal entry for entry.
    pub fn duplicate(&self) -> (r: Self)
        ensures
            r.entry_seq() == self.entry_seq(),
            r.key_seq() == self.key_seq(),
            r@ == self@,
            r.wf() == self.wf(),
    {
        let mut entries: Vec<(String, String)> = Vec::new();
        let mut i: usize = 0;
        while i < self.entries.len()
            invariant
                i <= self.entries@.len(),
                entries@ =~= self.entries@.take(i as int),
            decreases self.entries@.len() - i,
        {
            entries.push((self.entries[i].0.clone(), self.entries[i].1.clone()));
            i = i + 1;
        }
        let r = StrMap { entries };
        proof {
            assert(r.entries@ =~= self.entries@);
        }
        r
    }
}

/// Replacing the entry at the index its own key finds denotes `insert`.
proof fn lemma_map_after_update<V>(old_s: Seq<(String, V)>, new_s: Seq<(String, V)>, pos: int)
    requires
        sorted_by_key(old_s),
        0 <= pos < old_s.len(),
        new_s == old_s.update(pos, (new_s[pos].0, new_s[pos].1)),
        new_s.len() == old_s.len(),
        new_s[pos].0@ == old_s[pos].0@,
    ensures
        sorted_by_key(new_s),
        entries_map(new_s) == entries_map(old_s).insert(new_s[pos].0@, new_s[pos].1),
{
    assert forall|i: int, j: int| 0 <= i < j < new_s.len() implies chars_lt(
        (#[trigger] new_s[i]).0@,
        (#[trigger] new_s[j]).0@,
    ) by {
        assert(new_s[i].0@ == old_s[i].0@);
        assert(new_s[j].0@ == old_s[j].0@);
    }
    let k0 = new_s[pos].0@;
    let v0 = new_s[pos].1;
    assert forall|k: Seq<char>|
        #[trigger] entries_map(new_s).contains_key(k) == entries_map(old_s).insert(
            k0,
            v0,
        ).contains_key(k) by {
        if seq_contains_key(new_s, k) {
            let i = seq_key_index(new_s, k);
            assert(old_s[i].0@ == new_s[i].0@ || i == pos);
            assert(seq_contains_key(old_s, k) || k == k0);
        }
        if seq_contains_key(old_s, k) {
            let i = seq_key_index(old_s, k);
            assert(new_s[i].0@ == k || i == pos);
            assert(seq_contains_key(new_s, k) || k == k0);
        }
        if k == k0 {
            assert(seq_contains_key(new_s, k));
        }
    }
    assert forall|k: Seq<char>|
        entries_map(new_s).contains_key(k) implies #[trigger] entries_map(new_s)[k]
        == entries_map(old_s).insert(k0, v0)[k] by {
        let i = seq_key_index(new_s, k);
        lemma_key_at(new_s, i);
        if k == k0 {
            lemma_key_at(new_s, pos);
        } else {
            assert(i != pos);
            assert(old_s[i].0@ == k);
            lemma_key_at(old_s, i);
        }
    }
    assert(entries_map(new_s) =~= entries_map(old_s).insert(k0, v0));
}

/// Inserting a fresh entry at its sorted position denotes map `insert`.
proof fn lemma_map_after_insert<V>(old_s: Seq<(String, V)>, new_s: Seq<(String, V)>, pos: int)
    requires
        sorted_by_key(old_s),
        0 <= pos <= old_s.len(),
        new_s == old_s.insert(pos, (new_s[pos].0, new_s[pos].1)),
        forall|j: int| 0 <= j < pos ==> chars_lt((#[trigger] old_s[j]).0@, new_s[pos].0@),
        forall|j: int| pos <= j < old_s.len() ==> chars_lt(new_s[pos].0@, (#[trigger] old_s[j]).0@),
    ensures
        sorted_by_key(new_s),
        entries_map(new_s) == entries_map(old_s).insert(new_s[pos].0@, new_s[pos].1),
{
    let k0 = new_s[pos].0@;
    let v0 = new_s[pos].1;
    old_s.insert_ensures(pos, (new_s[pos].0, new_s[pos].1));
    assert forall|i: int, j: int| 0 <= i < j < new_s.len() implies chars_lt(
        (#[trigger] new_s[i]).0@,
        (#[trigger] new_s[j]).0@,
    ) by {
        if i < pos && j < pos {
            assert(new_s[i] == old_s[i] && new_s[j] == old_s[j]);
        } else if i < pos && j == pos {
            assert(new_s[i] == old_s[i]);
        } else if i < pos && j > pos {
            assert(new_s[i] == old_s[i] && new_s[j] == old_s[j - 1]);
            if j - 1 < pos {
            } else {
                lemma_chars_lt_trans(old_s[i].0@, k0, old_s[j - 1].0@);
            }
        } else if i == pos && j > pos {
            assert(new_s[j] == old_s[j - 1]);
        } else {
            assert(new_s[i] == old_s[i - 1] && new_s[j] == old_s[j - 1]);
        }
    }
    assert(!seq_contains_key(old_s, k0)) by {
        if seq_contains_key(old_s, k0) {
            let i = seq_key_index(old_s, k0);
            if i < pos {
                lemma_chars_lt_irrefl(k0);
            } else {
                lemma_chars_lt_irrefl(k0);
            }
        }
    }
    assert forall|k: Seq<char>|
        #[trigger] entries_map(new_s).contains_key(k) == entries_map(old_s).insert(
            k0,
            v0,
        ).contains_key(k) by {
        if seq_contains_key(new_s, k) {
            let i = seq_key_index(new_s, k);
            if i < pos {
                assert(new_s[i] == old_s[i]);
                assert(seq_contains_key(old_s, k));
            } else if i == pos {
                assert(k == k0);
            } else {
                assert(new_s[i] == old_s[i - 1]);
                assert(seq_contains_key(old_s, k));
            }
        }
        if seq_contains_key(old_s, k) {
            let i = seq_key_index(old_s, k);
            if i < pos {
                assert(new_s[i] == old_s[i]);
                assert(seq_contains_key(new_s, k));
            } else {
                assert(new_s[i + 1] == old_s[i]);
                assert(seq_contains_key(new_s, k));
            }
        }
        if k == k0 {
            assert(new_s[pos].0@ == k);
            assert(seq_contains_key(new_s, k));
        }
    }
    assert forall|k: Seq<char>|
        entries_map(new_s).contains_key(k) implies #[trigger] entries_map(new_s)[k]
        == entries_map(old_s).insert(k0, v0)[k] by {
        let i = seq_key_index(new_s, k);
        lemma_key_at(new_s, i);
        if k == k0 {
            lemma_key_at(new_s, pos);
        } else {
            assert(i != pos);
            if i < pos {
                assert(new_s[i] == old_s[i]);
                lemma_key_at(old_s, i);
            } else {
                assert(new_s[i] == old_s[i - 1]);
                lemma_key_at(old_s, i - 1);
            }
        }
    }
    assert(entries_map(new_s) =~= entries_map(old_s).insert(k0, v0));
}

/// Removing the entry at the index a key finds denotes map `remove`.
proof fn lemma_map_after_remove<V>(old_s: Seq<(String, V)>, new_s: Seq<(String, V)>, pos: int)
    requires
        sorted_by_key(old_s),
        0 <= pos < old_s.len(),
        new_s == old_s.remove(pos),
    ensures
        sorted_by_key(new_s),
        entries_map(new_s) == entries_map(old_s).remove(old_s[pos].0@),
{
    let k0 = old_s[pos].0@;
    old_s.remove_ensures(pos);
    assert forall|i: int, j: int| 0 <= i < j < new_s.len() implies chars_lt(
        (#[trigger] new_s[i]).0@,
        (#[trigger] new_s[j]).0@,
    ) by {
        let i0 = if i < pos { i } else { i + 1 };
        let j0 = if j < pos { j } else { j + 1 };
        assert(new_s[i] == old_s[i0] && new_s[j] == old_s[j0]);
    }
    assert forall|k: Seq<char>|
        #[trigger] entries_map(new_s).contains_key(k) == entries_map(old_s).remove(
            k0,
        ).contains_key(k) by {
        if seq_contains_key(new_s, k) {
            let i = seq_key_index(new_s, k);
            let i0 = if i < pos { i } else { i + 1 };
            assert(new_s[i] == old_s[i0]);
            assert(seq_contains_key(old_s, k));
            if k == k0 {
                lemma_key_at(old_s, pos);
                lemma_key_at(old_s, i0);
                assert(false);
            }
        }
        if seq_contains_key(old_s, k) && k != k0 {
            let i = seq_key_index(old_s, k);
            assert(i != pos) by {
                if i == pos {
                    assert(old_s[i].0@ == k0);
                }
            }
            let i1 = if i < pos { i } else { i - 1 };
            assert(new_s[i1] == old_s[i]);
            assert(seq_contains_key(new_s, k));
        }
    }
    assert forall|k: Seq<char>|
        entries_map(new_s).contains_key(k) implies #[trigger] entries_map(new_s)[k]
        == entries_map(old_s).remove(k0)[k] by {
        let i = seq_key_index(new_s, k);
        lemma_key_at(new_s, i);
        let i0 = if i < pos { i } else { i + 1 };
        assert(new_s[i] == old_s[i0]);
        lemma_key_at(old_s, i0);
    }
    assert(entries_map(new_s) =~= entries_map(old_s).remove(k0));
}

} // verus!
