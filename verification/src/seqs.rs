//! Searching a sequence for its first element of some kind.

use vstd::prelude::*;

verus! {

/// `i` is the position of the first element of `s` that satisfies `p`.
pub open spec fn first_where_at<A>(s: Seq<A>, p: spec_fn(A) -> bool, i: int) -> bool {
    &&& 0 <= i < s.len()
    &&& p(s[i])
    &&& forall|j: int| 0 <= j < i ==> !p(#[trigger] s[j])
}

/// The position of the first element of `s` that satisfies `p`, if there is one.
pub open spec fn first_where<A>(s: Seq<A>, p: spec_fn(A) -> bool) -> Option<int> {
    if exists|i: int| first_where_at(s, p, i) {
        Some(choose|i: int| first_where_at(s, p, i))
    } else {
        None
    }
}

/// The position of the first `x` in `s`, if there is one.
pub open spec fn first_index<A>(s: Seq<A>, x: A) -> Option<int> {
    first_where(s, |y: A| y == x)
}

/// A first position is the only first position.
pub proof fn lemma_first_where_unique<A>(s: Seq<A>, p: spec_fn(A) -> bool, i: int, k: int)
    requires
        first_where_at(s, p, i),
        first_where_at(s, p, k),
    ensures
        i == k,
{
    if i < k {
        assert(!p(s[i]));
    } else if k < i {
        assert(!p(s[k]));
    }
}

/// `first_where` is `Some(i)` at the first position that satisfies `p`.
pub proof fn lemma_first_where_is<A>(s: Seq<A>, p: spec_fn(A) -> bool, i: int)
    requires
        first_where_at(s, p, i),
    ensures
        first_where(s, p) == Some(i),
{
    let k = choose|k: int| first_where_at(s, p, k);
    lemma_first_where_unique(s, p, i, k);
}

/// Among the first `n` elements of `s`, if any satisfies `p`, one is the first.
proof fn lemma_least<A>(s: Seq<A>, p: spec_fn(A) -> bool, n: int) -> (i: int)
    requires
        0 <= n <= s.len(),
        exists|k: int| 0 <= k < n && p(#[trigger] s[k]),
    ensures
        first_where_at(s, p, i),
        i < n,
    decreases n,
{
    if exists|k: int| 0 <= k < n - 1 && p(#[trigger] s[k]) {
        lemma_least(s, p, n - 1)
    } else {
        let k = choose|k: int| 0 <= k < n && p(#[trigger] s[k]);
        assert forall|j: int| 0 <= j < k implies !p(#[trigger] s[j]) by {
            if p(s[j]) {
                assert(0 <= j < n - 1 && p(s[j]));
            }
        }
        k
    }
}

/// `first_where` finds a first position whenever some element satisfies `p`,
/// and only then.
pub proof fn lemma_first_where<A>(s: Seq<A>, p: spec_fn(A) -> bool)
    ensures
        match first_where(s, p) {
            Some(i) => first_where_at(s, p, i),
            None => forall|j: int| 0 <= j < s.len() ==> !p(#[trigger] s[j]),
        },
{
    if exists|k: int| 0 <= k < s.len() && p(#[trigger] s[k]) {
        let i = lemma_least(s, p, s.len() as int);
        lemma_first_where_is(s, p, i);
    } else {
        if exists|i: int| first_where_at(s, p, i) {
            let i = choose|i: int| first_where_at(s, p, i);
            assert(p(s[i]));
        }
    }
}

/// `first_index` is `Some(i)` where `s[i]` is the first `x`.
pub proof fn lemma_first_index_is<A>(s: Seq<A>, x: A, i: int)
    requires
        0 <= i < s.len(),
        s[i] == x,
        forall|j: int| 0 <= j < i ==> s[j] != x,
    ensures
        first_index(s, x) == Some(i),
        s.contains(x),
{
    lemma_first_where_is(s, |y: A| y == x, i);
}

/// `first_index` finds the first `x` whenever `s` holds one, and only then.
pub proof fn lemma_first_index<A>(s: Seq<A>, x: A)
    ensures
        match first_index(s, x) {
            Some(i) => 0 <= i < s.len() && s[i] == x && forall|j: int| 0 <= j < i ==> s[j] != x,
            None => !s.contains(x),
        },
        first_index(s, x) is Some <==> s.contains(x),
{
    lemma_first_where(s, |y: A| y == x);
}

/// In a sequence without duplicates, `first_index` finds every position.
pub proof fn lemma_first_index_no_duplicates<A>(s: Seq<A>, i: int)
    requires
        s.no_duplicates(),
        0 <= i < s.len(),
    ensures
        first_index(s, s[i]) == Some(i),
{
    lemma_first_index_is(s, s[i], i);
}

} // verus!
