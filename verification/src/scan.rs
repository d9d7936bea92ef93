//! The first element of a sequence that satisfies a predicate.

use vstd::prelude::*;

verus! {

/// Whether `i` is the least index of `s` whose element satisfies `p`.
pub open spec fn is_first<T>(s: Seq<T>, p: spec_fn(T) -> bool, i: int) -> bool {
    &&& 0 <= i < s.len()
    &&& p(s[i])
    &&& forall|j: int| 0 <= j < i ==> !p(#[trigger] s[j])
}

/// The least index of `s` whose element satisfies `p`, if there is one.
pub open spec fn first_index<T>(s: Seq<T>, p: spec_fn(T) -> bool) -> Option<int> {
    if exists|i: int| is_first(s, p, i) {
        Some(choose|i: int| is_first(s, p, i))
    } else {
        None
    }
}

/// An index that is first is the first index.
pub proof fn lemma_first_index_found<T>(s: Seq<T>, p: spec_fn(T) -> bool, i: int)
    requires
        is_first(s, p, i),
    ensures
        first_index(s, p) == Some(i),
{
    let c = choose|c: int| is_first(s, p, c);
    assert(is_first(s, p, c));
    if c < i {
        assert(!p(s[c]));
    } else if i < c {
        assert(!p(s[i]));
    }
}

/// Where there is no first index, no element below `n` satisfies `p`.
proof fn lemma_first_below<T>(s: Seq<T>, p: spec_fn(T) -> bool, n: int)
    requires
        0 <= n <= s.len(),
        first_index(s, p) is None,
    ensures
        forall|j: int| 0 <= j < n ==> !p(#[trigger] s[j]),
    decreases n,
{
    if n > 0 {
        lemma_first_below(s, p, n - 1);
        if p(s[n - 1]) {
            assert(is_first(s, p, n - 1));
        }
    }
}

/// The first index is first; where there is none, no element satisfies `p`.
pub proof fn lemma_first_index<T>(s: Seq<T>, p: spec_fn(T) -> bool)
    ensures
        match first_index(s, p) {
            Some(i) => is_first(s, p, i),
            None => forall|j: int| 0 <= j < s.len() ==> !p(#[trigger] s[j]),
        },
{
    if first_index(s, p) is None {
        lemma_first_below(s, p, s.len() as int);
    }
}

/// Where no element satisfies `p`, there is no first index.
pub proof fn lemma_first_index_absent<T>(s: Seq<T>, p: spec_fn(T) -> bool)
    requires
        forall|j: int| 0 <= j < s.len() ==> !p(#[trigger] s[j]),
    ensures
        first_index(s, p) is None,
{
    lemma_first_index(s, p);
    if first_index(s, p) is Some {
        assert(p(s[first_index(s, p)->0]));
    }
}

} // verus!
