//! A map from strings to values that keeps its entries in key order, the
//! order in which a `BTreeMap<String, _>` is walked.
use vstd::prelude::*;

use crate::text::{lemma_lex_lt_trans, lemma_lex_order_props, lex_lt, lex_order_str};

verus! {

pub open spec fn keys_sorted<V>(s: Seq<(String, V)>) -> bool {
    forall|i: int, j: int| 0 <= i < j < s.len() ==> lex_lt(s[i].0@, s[j].0@)
}

pub open spec fn key_index_from<V>(s: Seq<(String, V)>, k: Seq<char>, i: int) -> int
    decreases s.len() - i,
{
    if i < 0 || i >= s.len() {
        -1
    } else if s[i].0@ == k {
        i
    } else {
        key_index_from(s, k, i + 1)
    }
}

/// Index of the entry with key `k`; -1 when there is none.
pub open spec fn key_index<V>(s: Seq<(String, V)>, k: Seq<char>) -> int {
    key_index_from(s, k, 0)
}

pub open spec fn key_insert_pos_from<V>(s: Seq<(String, V)>, k: Seq<char>, i: int) -> int
    decreases s.len() - i,
{
    if i < 0 || i >= s.len() {
        if i < 0 { 0 } else { s.len() as int }
    } else if lex_lt(k, s[i].0@) {
        i
    } else {
        key_insert_pos_from(s, k, i + 1)
    }
}

/// `s` with `(k, v)` stored: replacing the value under `k`, or inserted in
/// key order.
pub open spec fn store<V>(s: Seq<(String, V)>, k: String, v: V) -> Seq<(String, V)> {
    let i = key_index(s, k@);
    if i >= 0 {
        s.update(i, (k, v))
    } else {
        s.insert(key_insert_pos_from(s, k@, 0), (k, v))
    }
}

/// `s` without the entry under `k`.
pub open spec fn unstore<V>(s: Seq<(String, V)>, k: Seq<char>) -> Seq<(String, V)> {
    let i = key_index(s, k);
    if i >= 0 {
        s.remove(i)
    } else {
        s
    }
}

/// Whether some entry has key `k`.
pub open spec fn has_key<V>(s: Seq<(String, V)>, k: Seq<char>) -> bool {
    exists|i: int| 0 <= i < s.len() && (#[trigger] s[i]).0@ == k
}

pub proof fn lemma_key_index_props<V>(s: Seq<(String, V)>, k: Seq<char>, i: int)
    requires
        0 <= i <= s.len(),
    ensures
        -1 <= key_index_from(s, k, i) < s.len(),
        key_index_from(s, k, i) >= 0 ==> i <= key_index_from(s, k, i) && s[key_index_from(
            s,
            k,
            i,
        )].0@ == k,
        key_index_from(s, k, i) < 0 ==> forall|j: int| i <= j < s.len() ==> (#[trigger] s[j]).0@ != k,
    decreases s.len() - i,
{
    if i < s.len() && s[i].0@ != k {
        lemma_key_index_props(s, k, i + 1);
    }
}

pub proof fn lemma_has_key_index<V>(s: Seq<(String, V)>, k: Seq<char>)
    ensures
        has_key(s, k) <==> key_index(s, k) >= 0,
{
    lemma_key_index_props(s, k, 0);
    if key_index(s, k) >= 0 {
        assert(s[key_index(s, k)].0@ == k);
    }
}

proof fn lemma_insert_pos_props<V>(s: Seq<(String, V)>, k: Seq<char>, i: int)
    requires
        0 <= i <= s.len(),
    ensures
        i <= key_insert_pos_from(s, k, i) <= s.len(),
        key_insert_pos_from(s, k, i) < s.len() ==> lex_lt(k, s[key_insert_pos_from(s, k, i)].0@),
        forall|j: int| i <= j < key_insert_pos_from(s, k, i) ==> !lex_lt(k, (#[trigger] s[j]).0@),
    decreases s.len() - i,
{
    if i < s.len() && !lex_lt(k, s[i].0@) {
        lemma_insert_pos_props(s, k, i + 1);
    }
}

/// Storing keeps the keys ordered; the stored key then maps to the stored
/// value, and no other key is gained or lost.
pub proof fn lemma_store<V>(s: Seq<(String, V)>, k: String, v: V, other: Seq<char>)
    requires
        keys_sorted(s),
    ensures
        keys_sorted(store(s, k, v)),
        0 <= key_index(store(s, k, v), k@) < store(s, k, v).len(),
        store(s, k, v)[key_index(store(s, k, v), k@)] == (k, v),
        has_key(s, k@) ==> store(s, k, v).len() == s.len(),
        !has_key(s, k@) ==> store(s, k, v).len() == s.len() + 1,
        other != k@ ==> (has_key(store(s, k, v), other) <==> has_key(s, other)),
        other != k@ && has_key(s, other) ==> store(s, k, v)[key_index(store(s, k, v), other)]
            == s[key_index(s, other)],
{
    lemma_key_index_props(s, k@, 0);
    lemma_has_key_index(s, k@);
    let idx = key_index(s, k@);
    let p = key_insert_pos_from(s, k@, 0);
    let t = store(s, k, v);
    if idx >= 0 {
        assert forall|i: int, j: int| 0 <= i < j < t.len() implies lex_lt(t[i].0@, t[j].0@) by {
            assert(t[i].0@ == s[i].0@);
            assert(t[j].0@ == s[j].0@);
        }
    } else {
        lemma_insert_pos_props(s, k@, 0);
        assert forall|j: int| 0 <= j < p implies lex_lt(s[j].0@, k@) by {
            lemma_lex_order_props(k@, s[j].0@);
        }
        assert forall|j: int| p <= j < s.len() implies lex_lt(k@, s[j].0@) by {
            if j > p {
                lemma_lex_lt_trans(k@, s[p].0@, s[j].0@);
            }
        }
        assert forall|i: int, j: int| 0 <= i < j < t.len() implies lex_lt(t[i].0@, t[j].0@) by {
            if i < p && j < p {
                assert(t[i] == s[i] && t[j] == s[j]);
            } else if i < p && j == p {
                assert(t[i] == s[i]);
            } else if i < p {
                assert(t[i] == s[i] && t[j] == s[j - 1]);
                lemma_lex_lt_trans(s[i].0@, k@, s[j - 1].0@);
            } else if i == p {
                assert(t[j] == s[j - 1]);
            } else {
                assert(t[i] == s[i - 1] && t[j] == s[j - 1]);
            }
        }
    }
    let pos = if idx >= 0 { idx } else { p };
    assert(t[pos] == (k, v));
    lemma_key_index_props(t, k@, 0);
    let kt = key_index(t, k@);
    if kt != pos {
        if kt < pos {
            assert(lex_lt(t[kt].0@, t[pos].0@));
        } else {
            assert(lex_lt(t[pos].0@, t[kt].0@));
        }
        lemma_lex_order_props(k@, k@);
    }
    if other != k@ {
        lemma_key_index_props(s, other, 0);
        lemma_key_index_props(t, other, 0);
        lemma_has_key_index(s, other);
        lemma_has_key_index(t, other);
        if has_key(s, other) {
            let i = key_index(s, other);
            let j = if idx >= 0 || i < p { i } else { i + 1 };
            assert(t[j] == s[i]);
            let jt = key_index(t, other);
            if jt != j {
                if jt < j {
                    assert(lex_lt(t[jt].0@, t[j].0@));
                } else {
                    assert(lex_lt(t[j].0@, t[jt].0@));
                }
                lemma_lex_order_props(other, other);
            }
        }
        if has_key(t, other) {
            let j = key_index(t, other);
            let i = if idx >= 0 || j < p { j } else { j - 1 };
            assert(s[i].0@ == other);
        }
    }
}

/// Removing a key keeps the keys ordered, loses that key and keeps every
/// other key with its value.
pub proof fn lemma_unstore<V>(s: Seq<(String, V)>, k: Seq<char>, other: Seq<char>)
    requires
        keys_sorted(s),
    ensures
        keys_sorted(unstore(s, k)),
        !has_key(unstore(s, k), k),
        has_key(s, k) ==> unstore(s, k).len() == s.len() - 1,
        !has_key(s, k) ==> unstore(s, k) == s,
        other != k ==> (has_key(unstore(s, k), other) <==> has_key(s, other)),
        other != k && has_key(s, other) ==> unstore(s, k)[key_index(unstore(s, k), other)]
            == s[key_index(s, other)],
{
    lemma_key_index_props(s, k, 0);
    lemma_has_key_index(s, k);
    let idx = key_index(s, k);
    if idx >= 0 {
        let t = s.remove(idx);
        assert forall|i: int, j: int| 0 <= i < j < t.len() implies lex_lt(t[i].0@, t[j].0@) by {
            let si = if i < idx { i } else { i + 1 };
            let sj = if j < idx { j } else { j + 1 };
            assert(t[i] == s[si] && t[j] == s[sj]);
        }
        if has_key(t, k) {
            let j = choose|j: int| 0 <= j < t.len() && (#[trigger] t[j]).0@ == k;
            let i = if j < idx { j } else { j + 1 };
            assert(t[j] == s[i]);
            if i < idx {
                assert(lex_lt(s[i].0@, s[idx].0@));
            } else {
                assert(lex_lt(s[idx].0@, s[i].0@));
            }
            lemma_lex_order_props(k, k);
        }
        if other != k {
            lemma_key_index_props(s, other, 0);
            lemma_key_index_props(t, other, 0);
            lemma_has_key_index(s, other);
            lemma_has_key_index(t, other);
            if has_key(s, other) {
                let i = key_index(s, other);
                let j = if i < idx { i } else { i - 1 };
                assert(t[j] == s[i]);
                let jt = key_index(t, other);
                if jt != j {
                    if jt < j {
                        assert(lex_lt(t[jt].0@, t[j].0@));
                    } else {
                        assert(lex_lt(t[j].0@, t[jt].0@));
                    }
                    lemma_lex_order_props(other, other);
                }
            }
            if has_key(t, other) {
                let j = key_index(t, other);
                let i = if j < idx { j } else { j + 1 };
                assert(s[i] == t[j]);
            }
        }
    }
}

/// A string-keyed map walked in key order.
pub struct StringMap<V> {
    entries: Vec<(String, V)>,
}

impl<V> StringMap<V> {
    /// The entries, in key order.
    pub closed spec fn entries(&self) -> Seq<(String, V)> {
        self.entries@
    }

    pub open spec fn wf(&self) -> bool {
        keys_sorted(self.entries())
    }

    pub fn new() -> (r: Self)
        ensures
            r.wf(),
            r.entries().len() == 0,
    {
        StringMap { entries: Vec::new() }
    }

    /// A map holding `entries`, whose keys are already in strictly
    /// increasing order.
    pub fn from_sorted(entries: Vec<(String, V)>) -> (r: Self)
        requires
            keys_sorted(entries@),
        ensures
            r.wf(),
            r.entries() == entries@,
    {
        StringMap { entries }
    }

    /// The entries, in key order.
    pub fn into_entries(self) -> (r: Vec<(String, V)>)
        ensures
            r@ == self.entries(),
    {
        self.entries
    }

    pub fn len(&self) -> (n: usize)
        ensures
            n == self.entries().len(),
    {
        self.entries.len()
    }

    /// Index of the entry under `key`, or `None`.
    pub fn find(&self, key: &str) -> (r: Option<usize>)
        ensures
            match r {
                Some(i) => i as int == key_index(self.entries(), key@),
                None => key_index(self.entries(), key@) == -1,
            },
    {
        let mut i: usize = 0;
        while i < self.entries.len()
            invariant
                i <= self.entries.len(),
                key_index(self.entries@, key@) == key_index_from(self.entries@, key@, i as int),
            decreases self.entries.len() - i,
        {
            let c = lex_order_str(self.entries[i].0.as_str(), key);
            proof {
                lemma_lex_order_props(self.entries@[i as int].0@, key@);
            }
            if c == 0 {
                return Some(i);
            }
            i += 1;
        }
        None
    }

    /// The entry at position `i`.
    pub fn entry(&self, i: usize) -> (r: &(String, V))
        requires
            i < self.entries().len(),
        ensures
            *r == self.entries()[i as int],
    {
        &self.entries[i]
    }

    /// The value under `key`.
    pub fn get(&self, key: &str) -> (r: Option<&V>)
        ensures
            key_index(self.entries(), key@) >= 0 ==> r == Some(
                &self.entries()[key_index(self.entries(), key@)].1,
            ),
            key_index(self.entries(), key@) < 0 ==> r is None,
    {
        proof {
            lemma_key_index_props(self.entries@, key@, 0);
        }
        match self.find(key) {
            Some(i) => Some(&self.entries[i].1),
            None => None,
        }
    }

    fn insert_position(&self, key: &str) -> (r: usize)
        ensures
            r as int == key_insert_pos_from(self.entries(), key@, 0),
    {
        let mut i: usize = 0;
        while i < self.entries.len()
            invariant
                i <= self.entries.len(),
                key_insert_pos_from(self.entries@, key@, 0) == key_insert_pos_from(
                    self.entries@,
                    key@,
                    i as int,
                ),
            decreases self.entries.len() - i,
        {
            if lex_order_str(key, self.entries[i].0.as_str()) < 0 {
                return i;
            }
            i += 1;
        }
        i
    }

    /// Stores `value` under `key`, replacing any value there.
    pub fn insert(&mut self, key: String, value: V)
        requires
            old(self).wf(),
        ensures
            final(self).wf(),
            final(self).entries() == store(old(self).entries(), key, value),
    {
        proof {
            lemma_store(self.entries@, key, value, key@);
            lemma_key_index_props(self.entries@, key@, 0);
            lemma_insert_pos_props(self.entries@, key@, 0);
        }
        match self.find(key.as_str()) {
            Some(i) => {
                self.entries.set(i, (key, value));
            },
            None => {
                let p = self.insert_position(key.as_str());
                self.entries.insert(p, (key, value));
            },
        }
    }

    /// Removes the entry under `key`, returning its value.
    pub fn remove(&mut self, key: &str) -> (r: Option<V>)
        requires
            old(self).wf(),
        ensures
            final(self).wf(),
            final(self).entries() == unstore(old(self).entries(), key@),
            key_index(old(self).entries(), key@) >= 0 ==> r == Some(
                old(self).entries()[key_index(old(self).entries(), key@)].1,
            ),
            key_index(old(self).entries(), key@) < 0 ==> r is None,
    {
        proof {
            lemma_unstore(self.entries@, key@, key@);
            lemma_key_index_props(self.entries@, key@, 0);
        }
        match self.find(key) {
            Some(i) => {
                let (_, v) = self.entries.remove(i);
                Some(v)
            },
            None => None,
        }
    }

    /// The keys, in order.
    pub fn keys(&self) -> (r: Vec<String>)
        ensures
            r@.len() == self.entries().len(),
            forall|i: int| 0 <= i < r@.len() ==> #[trigger] r@[i] == self.entries()[i].0,
    {
        let mut r: Vec<String> = Vec::new();
        let mut i: usize = 0;
        while i < self.entries.len()
            invariant
                i <= self.entries.len(),
                r@.len() == i,
                forall|j: int| 0 <= j < i ==> #[trigger] r@[j] == self.entries@[j].0,
            decreases self.entries.len() - i,
        {
            r.push(self.entries[i].0.clone());
            i += 1;
        }
        r
    }
}

} // verus!
