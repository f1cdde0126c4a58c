//! Association lists keyed by an equivalence: the binding tables of the
//! input manager.

use vstd::prelude::*;
use crate::seq_search::{first_index, is_first, lemma_first_found, lemma_first_is_first, lemma_first_none};

verus! {

/// A key of a binding table, compared by an equivalence relation.
pub trait BindingKey: Sized {
    /// The two keys address the same binding.
    spec fn key_eq(self, other: Self) -> bool;

    /// Compare two keys.
    fn same(&self, other: &Self) -> (r: bool)
        ensures
            r == self.key_eq(*other),
    ;

    /// `key_eq` is an equivalence relation.
    proof fn lemma_key_eq_equivalence(a: Self, b: Self, c: Self)
        ensures
            a.key_eq(a),
            a.key_eq(b) ==> b.key_eq(a),
            a.key_eq(b) && b.key_eq(c) ==> a.key_eq(c),
    ;
}

/// Whether two string slices hold the same characters, compared byte by
/// byte (as `==` on `str` does).
pub fn str_eq(a: &str, b: &str) -> (r: bool)
    ensures
        r == (a@ == b@),
{
    let ab = a.as_bytes();
    let bb = b.as_bytes();
    proof {
        vstd::utf8::encode_utf8_decode_utf8(a@);
        vstd::utf8::encode_utf8_decode_utf8(b@);
    }
    if ab.len() != bb.len() {
        return false;
    }
    let mut i: usize = 0;
    while i < ab.len()
        invariant
            ab.len() == bb.len(),
            i <= ab.len(),
            ab@ == vstd::utf8::encode_utf8(a@),
            bb@ == vstd::utf8::encode_utf8(b@),
            forall|j: int| 0 <= j < i ==> ab@[j] == bb@[j],
        decreases ab.len() - i,
    {
        if ab[i] != bb[i] {
            return false;
        }
        i = i + 1;
    }
    assert(ab@ =~= bb@);
    true
}

impl BindingKey for &'static str {
    open spec fn key_eq(self, other: Self) -> bool {
        self@ == other@
    }

    fn same(&self, other: &Self) -> (r: bool) {
        str_eq(self, other)
    }

    proof fn lemma_key_eq_equivalence(a: Self, b: Self, c: Self) {
    }
}

impl<A: BindingKey, B: BindingKey> BindingKey for (A, B) {
    open spec fn key_eq(self, other: Self) -> bool {
        self.0.key_eq(other.0) && self.1.key_eq(other.1)
    }

    fn same(&self, other: &Self) -> (r: bool) {
        self.0.same(&other.0) && self.1.same(&other.1)
    }

    proof fn lemma_key_eq_equivalence(a: Self, b: Self, c: Self) {
        A::lemma_key_eq_equivalence(a.0, b.0, c.0);
        B::lemma_key_eq_equivalence(a.1, b.1, c.1);
    }
}

/// Predicate: the entry's key is equivalent to `k`.
pub open spec fn entry_matches<K: BindingKey, V>(k: K) -> spec_fn((K, V)) -> bool {
    |e: (K, V)| e.0.key_eq(k)
}

/// The value bound to `k`: that of the first entry whose key is equivalent.
pub open spec fn lookup<K: BindingKey, V>(entries: Seq<(K, V)>, k: K) -> Option<V> {
    match first_index(entries, entry_matches::<K, V>(k)) {
        Some(i) => Some(entries[i].1),
        None => None,
    }
}

/// A binding table: later bindings for an equivalent key replace earlier ones.
pub struct BindingMap<K, V> {
    entries: Vec<(K, V)>,
}

impl<K: BindingKey + Copy, V> BindingMap<K, V> {
    /// The entries in insertion order.
    pub closed spec fn spec_entries(&self) -> Seq<(K, V)> {
        self.entries@
    }

    /// The value bound to `k`.
    pub open spec fn spec_get(&self, k: K) -> Option<V> {
        lookup(self.spec_entries(), k)
    }

    /// An empty table.
    pub fn new() -> (r: BindingMap<K, V>)
        ensures
            r.spec_entries() == Seq::<(K, V)>::empty(),
            forall|k: K| r.spec_get(k) is None,
    {
        let r = BindingMap { entries: Vec::new() };
        proof {
            assert forall|k: K| r.spec_get(k) is None by {
                lemma_first_none(r.entries@, entry_matches::<K, V>(k));
            }
        }
        r
    }

    fn position(&self, k: &K) -> (r: Option<usize>)
        ensures
            match r {
                Some(i) => first_index(self.entries@, entry_matches::<K, V>(*k)) == Some(i as int),
                None => first_index(self.entries@, entry_matches::<K, V>(*k)) is None,
            },
    {
        let mut i: usize = 0;
        while i < self.entries.len()
            invariant
                i <= self.entries.len(),
                forall|j: int| 0 <= j < i ==> !entry_matches::<K, V>(*k)(#[trigger] self.entries@[j]),
            decreases self.entries.len() - i,
        {
            if self.entries[i].0.same(k) {
                proof {
                    assert(is_first(self.entries@, entry_matches::<K, V>(*k), i as int));
                    lemma_first_found(self.entries@, entry_matches::<K, V>(*k), i as int);
                }
                return Some(i);
            }
            i = i + 1;
        }
        proof {
            lemma_first_none(self.entries@, entry_matches::<K, V>(*k));
        }
        None
    }

    /// The value bound to `k`, if any.
    pub fn get(&self, k: &K) -> (r: Option<&V>)
        ensures
            match r {
                Some(v) => self.spec_get(*k) == Some(*v),
                None => self.spec_get(*k) is None,
            },
    {
        match self.position(k) {
            Some(i) => Some(&self.entries[i].1),
            None => None,
        }
    }

    /// Bind `v` to `k`, replacing the value of an equivalent key if there is one.
    pub fn insert(&mut self, k: K, v: V)
        ensures
            forall|q: K| #[trigger]
                final(self).spec_get(q) == if q.key_eq(k) {
                    Some(v)
                } else {
                    old(self).spec_get(q)
                },
            match first_index(old(self).spec_entries(), entry_matches::<K, V>(k)) {
                Some(i) => final(self).spec_entries() == old(self).spec_entries().update(
                    i,
                    (old(self).spec_entries()[i].0, v),
                ),
                None => final(self).spec_entries() == old(self).spec_entries().push((k, v)),
            },
    {
        let ghost old_entries = self.entries@;
        match self.position(&k) {
            Some(i) => {
                let key = self.entries[i].0;
                self.entries.set(i, (key, v));
                proof {
                    let new_entries = self.entries@;
                    assert forall|q: K| #[trigger]
                        lookup(new_entries, q) == if q.key_eq(k) {
                            Some(v)
                        } else {
                            lookup(old_entries, q)
                        } by {
                        K::lemma_key_eq_equivalence(key, k, q);
                        K::lemma_key_eq_equivalence(q, k, key);
                        K::lemma_key_eq_equivalence(k, q, key);
                        lemma_lookup_after_update(old_entries, i as int, k, v, q);
                    }
                }
            },
            None => {
                self.entries.push((k, v));
                proof {
                    let new_entries = self.entries@;
                    assert forall|q: K| #[trigger]
                        lookup(new_entries, q) == if q.key_eq(k) {
                            Some(v)
                        } else {
                            lookup(old_entries, q)
                        } by {
                        lemma_lookup_after_push(old_entries, k, v, q);
                    }
                }
            },
        }
    }
}

proof fn lemma_lookup_after_update<K: BindingKey, V>(entries: Seq<(K, V)>, i: int, k: K, v: V, q: K)
    requires
        first_index(entries, entry_matches::<K, V>(k)) == Some(i),
    ensures
        lookup(entries.update(i, (entries[i].0, v)), q) == if q.key_eq(k) {
            Some(v)
        } else {
            lookup(entries, q)
        },
{
    lemma_first_is_first(entries, entry_matches::<K, V>(k));
    let ne = entries.update(i, (entries[i].0, v));
    let key = entries[i].0;
    K::lemma_key_eq_equivalence(key, k, q);
    K::lemma_key_eq_equivalence(q, k, key);
    K::lemma_key_eq_equivalence(k, q, key);
    K::lemma_key_eq_equivalence(q, key, k);
    K::lemma_key_eq_equivalence(key, q, k);
    assert(entries[i].0.key_eq(k));
    if q.key_eq(k) {
        assert forall|j: int| 0 <= j < i implies !entry_matches::<K, V>(q)(#[trigger] ne[j]) by {
            K::lemma_key_eq_equivalence(ne[j].0, q, k);
            assert(!entry_matches::<K, V>(k)(entries[j]));
        }
        assert(is_first(ne, entry_matches::<K, V>(q), i));
        lemma_first_found(ne, entry_matches::<K, V>(q), i);
    } else {
        assert(!key.key_eq(q));
        match first_index(entries, entry_matches::<K, V>(q)) {
            Some(m) => {
                lemma_first_is_first(entries, entry_matches::<K, V>(q));
                assert(m != i);
                assert forall|j: int| 0 <= j < m implies !entry_matches::<K, V>(q)(#[trigger] ne[j]) by {
                    if j == i {
                    } else {
                        assert(!entry_matches::<K, V>(q)(entries[j]));
                    }
                }
                assert(is_first(ne, entry_matches::<K, V>(q), m));
                lemma_first_found(ne, entry_matches::<K, V>(q), m);
            },
            None => {
                assert forall|j: int| 0 <= j < ne.len() implies !entry_matches::<K, V>(q)(#[trigger] ne[j]) by {
                    if j == i {
                    } else {
                        if entry_matches::<K, V>(q)(entries[j]) {
                            crate::seq_search::lemma_first_exists(entries, entry_matches::<K, V>(q), j);
                        }
                    }
                }
                lemma_first_none(ne, entry_matches::<K, V>(q));
            },
        }
    }
}

proof fn lemma_lookup_after_push<K: BindingKey, V>(entries: Seq<(K, V)>, k: K, v: V, q: K)
    requires
        first_index(entries, entry_matches::<K, V>(k)) is None,
    ensures
        lookup(entries.push((k, v)), q) == if q.key_eq(k) {
            Some(v)
        } else {
            lookup(entries, q)
        },
{
    let ne = entries.push((k, v));
    let n = entries.len() as int;
    assert forall|j: int| 0 <= j < n implies !entry_matches::<K, V>(k)(#[trigger] entries[j]) by {
        if entry_matches::<K, V>(k)(entries[j]) {
            crate::seq_search::lemma_first_exists(entries, entry_matches::<K, V>(k), j);
        }
    }
    K::lemma_key_eq_equivalence(k, q, k);
    K::lemma_key_eq_equivalence(q, k, q);
    if q.key_eq(k) {
        assert forall|j: int| 0 <= j < n implies !entry_matches::<K, V>(q)(#[trigger] ne[j]) by {
            K::lemma_key_eq_equivalence(ne[j].0, q, k);
            assert(!entry_matches::<K, V>(k)(entries[j]));
        }
        assert(is_first(ne, entry_matches::<K, V>(q), n));
        lemma_first_found(ne, entry_matches::<K, V>(q), n);
    } else {
        assert(!k.key_eq(q));
        match first_index(entries, entry_matches::<K, V>(q)) {
            Some(m) => {
                lemma_first_is_first(entries, entry_matches::<K, V>(q));
                assert forall|j: int| 0 <= j < m implies !entry_matches::<K, V>(q)(#[trigger] ne[j]) by {
                    assert(!entry_matches::<K, V>(q)(entries[j]));
                }
                assert(is_first(ne, entry_matches::<K, V>(q), m));
                lemma_first_found(ne, entry_matches::<K, V>(q), m);
            },
            None => {
                assert forall|j: int| 0 <= j < ne.len() implies !entry_matches::<K, V>(q)(#[trigger] ne[j]) by {
                    if j < n && entry_matches::<K, V>(q)(entries[j]) {
                        crate::seq_search::lemma_first_exists(entries, entry_matches::<K, V>(q), j);
                    }
                }
                lemma_first_none(ne, entry_matches::<K, V>(q));
            },
        }
    }
}

} // verus!
