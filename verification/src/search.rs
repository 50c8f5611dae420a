//! First matches in sequences.

use vstd::prelude::*;

verus! {

/// The first index from `k` on whose element satisfies `f`; the length where none does.
pub open spec fn first_at<T>(s: Seq<T>, f: spec_fn(T) -> bool, k: int) -> int
    decreases s.len() - k,
{
    if k >= s.len() {
        s.len() as int
    } else if f(s[k]) {
        k
    } else {
        first_at(s, f, k + 1)
    }
}

/// The first element that satisfies `f`.
pub open spec fn first_of<T>(s: Seq<T>, f: spec_fn(T) -> bool) -> Option<T> {
    let k = first_at(s, f, 0);
    if k < s.len() {
        Some(s[k])
    } else {
        None
    }
}

/// What `first_at` finds: a match, none before it.
pub proof fn lemma_first_at<T>(s: Seq<T>, f: spec_fn(T) -> bool, k: int)
    requires
        0 <= k <= s.len(),
    ensures
        k <= first_at(s, f, k) <= s.len(),
        first_at(s, f, k) < s.len() ==> f(s[first_at(s, f, k)]),
        forall|j: int| k <= j < first_at(s, f, k) ==> !f(#[trigger] s[j]),
    decreases s.len() - k,
{
    if k < s.len() && !f(s[k]) {
        lemma_first_at(s, f, k + 1);
    }
}

/// A position with no match before it is the first match, if it is one, or the end.
pub proof fn lemma_first_is<T>(s: Seq<T>, f: spec_fn(T) -> bool, k: int, i: int)
    requires
        0 <= k <= i <= s.len(),
        i < s.len() ==> f(s[i]),
        forall|j: int| k <= j < i ==> !f(#[trigger] s[j]),
    ensures
        first_at(s, f, k) == i,
    decreases i - k,
{
    if k < i {
        assert(!f(s[k]));
        lemma_first_is(s, f, k + 1, i);
    }
}

} // verus!
