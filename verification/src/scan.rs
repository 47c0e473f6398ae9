//! First-match scanning over sequences, shared by field lookup and entry
//! resolution: the store is always searched in its natural order and the
//! first hit wins.

use vstd::prelude::*;

verus! {

/// The index of the first element of `s` satisfying `p`, if any.
pub open spec fn first_idx<T>(s: Seq<T>, p: spec_fn(T) -> bool) -> Option<int>
    decreases s.len(),
{
    if s.len() == 0 {
        None
    } else if p(s[0]) {
        Some(0)
    } else {
        match first_idx(s.drop_first(), p) {
            Some(i) => Some(i + 1),
            None => None,
        }
    }
}

/// What [`first_idx`] returns: the first hit, or nothing when no element
/// satisfies `p`.
pub proof fn lemma_first_idx_props<T>(s: Seq<T>, p: spec_fn(T) -> bool)
    ensures
        match first_idx(s, p) {
            Some(i) => 0 <= i < s.len() && p(s[i]) && forall|j: int| 0 <= j < i ==> !p(s[j]),
            None => forall|j: int| 0 <= j < s.len() ==> !p(s[j]),
        },
    decreases s.len(),
{
    if s.len() > 0 && !p(s[0]) {
        lemma_first_idx_props(s.drop_first(), p);
        match first_idx(s, p) {
            Some(i) => {
                assert(first_idx(s.drop_first(), p) == Some(i - 1));
                assert(s.drop_first()[i - 1] == s[i]);
                assert forall|j: int| 0 <= j < i implies !p(s[j]) by {
                    if j > 0 {
                        assert(s.drop_first()[j - 1] == s[j]);
                        assert(!p(s.drop_first()[j - 1]));
                    }
                }
            },
            None => {
                assert forall|j: int| 0 <= j < s.len() implies !p(s[j]) by {
                    if j > 0 {
                        assert(s.drop_first()[j - 1] == s[j]);
                        assert(!p(s.drop_first()[j - 1]));
                    }
                }
            },
        }
    }
}

/// A position that satisfies `p` after a run that does not is the first hit.
pub proof fn lemma_first_idx_is<T>(s: Seq<T>, p: spec_fn(T) -> bool, k: int)
    requires
        0 <= k < s.len(),
        p(s[k]),
        forall|j: int| 0 <= j < k ==> !p(s[j]),
    ensures
        first_idx(s, p) == Some(k),
    decreases s.len(),
{
    if k == 0 {
    } else {
        assert(forall|j: int| 0 <= j < s.drop_first().len() ==> s.drop_first()[j] == s[j + 1]);
        lemma_first_idx_is(s.drop_first(), p, k - 1);
    }
}

/// When no element satisfies `p`, there is no first hit.
pub proof fn lemma_first_idx_none<T>(s: Seq<T>, p: spec_fn(T) -> bool)
    requires
        forall|j: int| 0 <= j < s.len() ==> !p(s[j]),
    ensures
        first_idx(s, p) is None,
    decreases s.len(),
{
    if s.len() > 0 {
        assert(forall|j: int| 0 <= j < s.drop_first().len() ==> s.drop_first()[j] == s[j + 1]);
        lemma_first_idx_none(s.drop_first(), p);
    }
}

/// Predicates that agree on every element find the same first hit.
pub proof fn lemma_first_idx_congruence<T>(s: Seq<T>, p: spec_fn(T) -> bool, q: spec_fn(T) -> bool)
    requires
        forall|j: int| 0 <= j < s.len() ==> p(#[trigger] s[j]) == q(s[j]),
    ensures
        first_idx(s, p) == first_idx(s, q),
    decreases s.len(),
{
    if s.len() > 0 && !p(s[0]) {
        assert(forall|j: int| 0 <= j < s.drop_first().len() ==> s.drop_first()[j] == s[j + 1]);
        lemma_first_idx_congruence(s.drop_first(), p, q);
    }
}

} // verus!
