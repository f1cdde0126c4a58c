//! First-match search over sequences, the model behind every "find the
//! first element that satisfies a predicate" lookup in the library.

use vstd::prelude::*;

verus! {

/// `i` is the position of the first element of `s` that satisfies `p`.
pub open spec fn is_first<T>(s: Seq<T>, p: spec_fn(T) -> bool, i: int) -> bool {
    &&& 0 <= i < s.len()
    &&& p(s[i])
    &&& forall|j: int| 0 <= j < i ==> !p(#[trigger] s[j])
}

/// Position of the first element of `s` that satisfies `p`, if there is one.
pub open spec fn first_index<T>(s: Seq<T>, p: spec_fn(T) -> bool) -> Option<int> {
    if exists|i: int| is_first(s, p, i) {
        Some(choose|i: int| is_first(s, p, i))
    } else {
        None
    }
}

/// There is at most one first match.
pub proof fn lemma_first_unique<T>(s: Seq<T>, p: spec_fn(T) -> bool, i: int, k: int)
    requires
        is_first(s, p, i),
        is_first(s, p, k),
    ensures
        i == k,
{
    if i < k {
        assert(!p(s[i]));
    } else if k < i {
        assert(!p(s[k]));
    }
}

/// A position found by a left-to-right scan is the first match.
pub proof fn lemma_first_found<T>(s: Seq<T>, p: spec_fn(T) -> bool, i: int)
    requires
        is_first(s, p, i),
    ensures
        first_index(s, p) == Some(i),
{
    let k = choose|k: int| is_first(s, p, k);
    lemma_first_unique(s, p, i, k);
}

/// No element matches, so there is no first match.
pub proof fn lemma_first_none<T>(s: Seq<T>, p: spec_fn(T) -> bool)
    requires
        forall|j: int| 0 <= j < s.len() ==> !p(#[trigger] s[j]),
    ensures
        first_index(s, p) is None,
{
}

/// If some element matches, a first match exists.
pub proof fn lemma_first_exists<T>(s: Seq<T>, p: spec_fn(T) -> bool, j: int)
    requires
        0 <= j < s.len(),
        p(s[j]),
    ensures
        first_index(s, p) is Some,
        is_first(s, p, first_index(s, p)->0),
    decreases j,
{
    if exists|k: int| 0 <= k < j && p(#[trigger] s[k]) {
        let k = choose|k: int| 0 <= k < j && p(#[trigger] s[k]);
        lemma_first_exists(s, p, k);
    } else {
        assert(is_first(s, p, j));
        lemma_first_found(s, p, j);
    }
}

/// The first match, when there is one, satisfies `is_first`.
pub proof fn lemma_first_is_first<T>(s: Seq<T>, p: spec_fn(T) -> bool)
    requires
        first_index(s, p) is Some,
    ensures
        is_first(s, p, first_index(s, p)->0),
{
}

} // verus!

verus! {

/// First matches agree on sequences that agree on the predicate everywhere.
pub proof fn lemma_first_index_same<T, U>(s1: Seq<T>, p1: spec_fn(T) -> bool, s2: Seq<U>, p2: spec_fn(U) -> bool)
    requires
        s1.len() == s2.len(),
        forall|j: int| 0 <= j < s1.len() ==> p1(#[trigger] s1[j]) == p2(s2[j]),
    ensures
        first_index(s1, p1) == first_index(s2, p2),
{
    if exists|i: int| is_first(s1, p1, i) {
        let i = choose|i: int| is_first(s1, p1, i);
        assert forall|j: int| 0 <= j < i implies !p2(#[trigger] s2[j]) by {
            assert(!p1(s1[j]));
        }
        assert(is_first(s2, p2, i));
        lemma_first_found(s1, p1, i);
        lemma_first_found(s2, p2, i);
    } else {
        if exists|i: int| is_first(s2, p2, i) {
            let i = choose|i: int| is_first(s2, p2, i);
            assert forall|j: int| 0 <= j < i implies !p1(#[trigger] s1[j]) by {
                assert(!p2(s2[j]));
            }
            assert(is_first(s1, p1, i));
        }
    }
}

} // verus!
