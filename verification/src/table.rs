//! A small string-keyed table that keeps its entries in insertion order and
//! holds each key once. It stands for the string-keyed maps of the
//! configuration and of per-dictionary output.
use vstd::prelude::*;

use crate::text::same_text;

verus! {

/// The position of the entry with key `k`, the first one if several have it.
pub open spec fn key_pos<T>(e: Seq<(Seq<char>, T)>, k: Seq<char>) -> Option<int>
    decreases e.len(),
{
    if e.len() == 0 {
        None
    } else if key_pos(e.drop_last(), k) is Some {
        key_pos(e.drop_last(), k)
    } else if e.last().0 == k {
        Some(e.len() - 1)
    } else {
        None
    }
}

/// The value stored under `k`.
pub open spec fn lookup<T>(e: Seq<(Seq<char>, T)>, k: Seq<char>) -> Option<T> {
    match key_pos(e, k) {
        Some(i) => Some(e[i].1),
        None => None,
    }
}

/// The entries after storing `v` under `k`: an entry with that key is
/// replaced in place, otherwise the entry is appended.
pub open spec fn store<T>(e: Seq<(Seq<char>, T)>, k: Seq<char>, v: T) -> Seq<(Seq<char>, T)> {
    match key_pos(e, k) {
        Some(i) => e.update(i, (k, v)),
        None => e.push((k, v)),
    }
}

/// No two entries share a key.
pub open spec fn distinct_keys<T>(e: Seq<(Seq<char>, T)>) -> bool {
    forall|i: int, j: int| 0 <= i < j < e.len() ==> e[i].0 != e[j].0
}

/// The position found holds the key; when none is found, no entry does.
pub proof fn lemma_key_pos_bounds<T>(e: Seq<(Seq<char>, T)>, k: Seq<char>)
    ensures
        key_pos(e, k) matches Some(i) ==> 0 <= i < e.len() && e[i].0 == k,
        key_pos(e, k) is None ==> forall|i: int| 0 <= i < e.len() ==> e[i].0 != k,
    decreases e.len(),
{
    if e.len() > 0 {
        lemma_key_pos_bounds(e.drop_last(), k);
        let p = e.drop_last();
        if key_pos(p, k) is None {
            assert forall|i: int| 0 <= i < p.len() implies e[i].0 != k by {
                assert(e[i] == p[i]);
            }
        } else {
            let i = key_pos(p, k)->0;
            assert(e[i] == p[i]);
        }
    }
}

/// A key found among the first `n` entries is found at the same place in all.
pub proof fn lemma_key_pos_prefix<T>(e: Seq<(Seq<char>, T)>, k: Seq<char>, n: int)
    requires
        0 <= n <= e.len(),
        key_pos(e.take(n), k) is Some,
    ensures
        key_pos(e, k) == key_pos(e.take(n), k),
    decreases e.len() - n,
{
    if n < e.len() {
        assert(e.take(n + 1).drop_last() == e.take(n));
        lemma_key_pos_prefix(e, k, n + 1);
    } else {
        assert(e.take(n) == e);
    }
}

/// A string-keyed table; each key is held once.
#[derive(Debug)]
pub struct Table<T> {
    entries: Vec<(String, T)>,
}

impl<T> View for Table<T> {
    type V = Seq<(Seq<char>, T)>;

    closed spec fn view(&self) -> Seq<(Seq<char>, T)> {
        self.entries@.map_values(|e: (String, T)| (e.0@, e.1))
    }
}

impl<T> Table<T> {
    #[verifier::type_invariant]
    spec fn well_formed(self) -> bool {
        distinct_keys(self@)
    }

    /// An empty table.
    pub fn new() -> (r: Self)
        ensures
            r@ == Seq::<(Seq<char>, T)>::empty(),
    {
        let r = Table { entries: Vec::new() };
        assert(r@ =~= Seq::<(Seq<char>, T)>::empty());
        r
    }

    /// The number of entries.
    pub fn len(&self) -> (r: usize)
        ensures
            r == self@.len(),
            distinct_keys(self@),
    {
        proof {
            use_type_invariant(self);
        }
        self.entries.len()
    }

    /// The position of the entry with key `key`.
    pub fn position(&self, key: &str) -> (r: Option<usize>)
        ensures
            r matches Some(i) ==> key_pos(self@, key@) == Some(i as int),
            r is None ==> key_pos(self@, key@) is None,
    {
        let ghost e = self@;
        let mut i: usize = 0;
        while i < self.entries.len()
            invariant
                e == self@,
                i <= e.len(),
                e.len() == self.entries@.len(),
                key_pos(e.take(i as int), key@) is None,
            decreases e.len() - i,
        {
            assert(e.take(i + 1).drop_last() == e.take(i as int));
            assert(e[i as int].0 == self.entries@[i as int].0@);
            if same_text(self.entries[i].0.as_str(), key) {
                proof {
                    lemma_key_pos_prefix(e, key@, i + 1);
                }
                return Some(i);
            }
            i += 1;
        }
        assert(e.take(i as int) == e);
        None
    }

    /// The value stored under `key`.
    pub fn get(&self, key: &str) -> (r: Option<&T>)
        ensures
            r matches Some(v) ==> lookup(self@, key@) == Some(*v),
            r is None ==> lookup(self@, key@) is None,
    {
        match self.position(key) {
            Some(i) => {
                proof {
                    lemma_key_pos_bounds(self@, key@);
                }
                Some(&self.entries[i].1)
            },
            None => None,
        }
    }

    /// The key and value of entry `i`.
    pub fn entry(&self, i: usize) -> (r: (&String, &T))
        requires
            i < self@.len(),
        ensures
            r.0@ == self@[i as int].0,
            *r.1 == self@[i as int].1,
    {
        let e = &self.entries[i];
        (&e.0, &e.1)
    }

    /// Stores `value` under `key`, replacing the value stored there before.
    pub fn insert(&mut self, key: String, value: T)
        ensures
            final(self)@ == store(old(self)@, key@, value),
    {
        proof {
            use_type_invariant(&*self);
        }
        let ghost e = self@;
        let pos = self.position(key.as_str());
        let ghost k = key@;
        match pos {
            Some(i) => {
                proof {
                    lemma_key_pos_bounds(e, k);
                }
                let mut entries: Vec<(String, T)> = Vec::new();
                std::mem::swap(&mut entries, &mut self.entries);
                entries.set(i, (key, value));
                proof {
                    let m = entries@.map_values(|x: (String, T)| (x.0@, x.1));
                    assert(m =~= e.update(i as int, (k, value)));
                    assert(distinct_keys(m)) by {
                        assert forall|a: int, b: int| 0 <= a < b < m.len() implies m[a].0
                            != m[b].0 by {
                            if a != i && b != i {
                                assert(m[a] == e[a] && m[b] == e[b]);
                            } else if a == i {
                                assert(m[b] == e[b]);
                            } else {
                                assert(m[a] == e[a]);
                            }
                        }
                    }
                }
                self.entries = entries;
            },
            None => {
                proof {
                    lemma_key_pos_bounds(e, k);
                }
                let mut entries: Vec<(String, T)> = Vec::new();
                std::mem::swap(&mut entries, &mut self.entries);
                entries.push((key, value));
                proof {
                    let m = entries@.map_values(|x: (String, T)| (x.0@, x.1));
                    assert(m =~= e.push((k, value)));
                    assert(distinct_keys(m)) by {
                        assert forall|a: int, b: int| 0 <= a < b < m.len() implies m[a].0
                            != m[b].0 by {
                            assert(m[a] == e[a]);
                            if b < e.len() {
                                assert(m[b] == e[b]);
                            }
                        }
                    }
                }
                self.entries = entries;
            },
        }
    }
}

} // verus!

verus! {

/// The entries of a string table, by the values' views.
pub open spec fn text_entries(e: Seq<(Seq<char>, String)>) -> Seq<(Seq<char>, Seq<char>)> {
    e.map_values(|x: (Seq<char>, String)| (x.0, x.1@))
}

pub proof fn lemma_key_pos_text(e: Seq<(Seq<char>, String)>, k: Seq<char>)
    ensures
        key_pos(text_entries(e), k) == key_pos(e, k),
    decreases e.len(),
{
    if e.len() > 0 {
        lemma_key_pos_text(e.drop_last(), k);
        assert(text_entries(e).drop_last() == text_entries(e.drop_last()));
    }
}

/// Storing into a string table stores the value's view.
pub proof fn lemma_store_text(e: Seq<(Seq<char>, String)>, k: Seq<char>, v: String)
    ensures
        text_entries(store(e, k, v)) == store(text_entries(e), k, v@),
{
    lemma_key_pos_text(e, k);
    lemma_key_pos_bounds(e, k);
    match key_pos(e, k) {
        Some(i) => {
            assert(text_entries(e.update(i, (k, v))) =~= text_entries(e).update(i, (k, v@)));
        },
        None => {
            assert(text_entries(e.push((k, v))) =~= text_entries(e).push((k, v@)));
        },
    }
}

} // verus!

verus! {

pub proof fn lemma_first_key<T>(e: Seq<(Seq<char>, T)>, k: Seq<char>, i: int)
    requires
        0 <= i < e.len(),
        e[i].0 == k,
        forall|j: int| 0 <= j < i ==> e[j].0 != k,
    ensures
        key_pos(e, k) == Some(i),
    decreases e.len(),
{
    let p = e.drop_last();
    if i < e.len() - 1 {
        assert forall|j: int| 0 <= j < i implies p[j].0 != k by {
            assert(p[j] == e[j]);
        }
        assert(p[i] == e[i]);
        lemma_first_key(p, k, i);
    } else {
        lemma_key_pos_bounds(p, k);
        if key_pos(p, k) is Some {
            let i2 = key_pos(p, k)->0;
            assert(p[i2] == e[i2]);
        }
    }
}

pub proof fn lemma_key_pos_first<T>(e: Seq<(Seq<char>, T)>, k: Seq<char>)
    ensures
        key_pos(e, k) matches Some(i) ==> forall|j: int| 0 <= j < i ==> e[j].0 != k,
    decreases e.len(),
{
    if e.len() > 0 {
        let p = e.drop_last();
        lemma_key_pos_first(p, k);
        lemma_key_pos_bounds(p, k);
        if key_pos(p, k) is Some {
            let i = key_pos(p, k)->0;
            assert forall|j: int| 0 <= j < i implies e[j].0 != k by {
                assert(p[j] == e[j]);
            }
        } else if e.last().0 == k {
            assert forall|j: int| 0 <= j < e.len() - 1 implies e[j].0 != k by {
                assert(p[j] == e[j]);
            }
        }
    }
}

/// A value stored under a key is what a lookup of that key gives back.
pub proof fn lookup_after_store<T>(e: Seq<(Seq<char>, T)>, k: Seq<char>, v: T)
    ensures
        lookup(store(e, k, v), k) == Some(v),
{
    lemma_key_pos_bounds(e, k);
    lemma_key_pos_first(e, k);
    let s = store(e, k, v);
    match key_pos(e, k) {
        Some(i) => {
            assert forall|j: int| 0 <= j < i implies s[j].0 != k by {
                assert(s[j] == e[j]);
            }
            lemma_first_key(s, k, i);
        },
        None => {
            assert forall|j: int| 0 <= j < e.len() implies s[j].0 != k by {
                assert(s[j] == e[j]);
            }
            lemma_first_key(s, k, e.len() as int);
        },
    }
}

/// Storing under one key leaves the lookups of every other key as they were.
pub proof fn lookup_other_after_store<T>(
    e: Seq<(Seq<char>, T)>,
    k: Seq<char>,
    v: T,
    other: Seq<char>,
)
    requires
        other != k,
    ensures
        lookup(store(e, k, v), other) == lookup(e, other),
{
    lemma_key_pos_bounds(e, k);
    lemma_key_pos_bounds(e, other);
    lemma_key_pos_first(e, other);
    let s = store(e, k, v);
    lemma_key_pos_bounds(s, other);
    assert forall|j: int| 0 <= j < e.len() implies s[j].0 == e[j].0 || s[j].0 == k by {
    }
    match key_pos(e, other) {
        Some(i) => {
            assert forall|j: int| 0 <= j < i implies s[j].0 != other by {
                assert(s[j].0 == e[j].0 || s[j].0 == k);
            }
            assert(s[i] == e[i]);
            lemma_first_key(s, other, i);
        },
        None => {
            assert forall|j: int| 0 <= j < s.len() implies s[j].0 != other by {
                if j < e.len() {
                    assert(s[j].0 == e[j].0 || s[j].0 == k);
                }
            }
        },
    }
}

} // verus!
