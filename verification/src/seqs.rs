//! A first-hit search over sequences, shared by the manifest, spine and
//! table-of-contents lookups.

use vstd::prelude::*;

verus! {

/// The position of the first element satisfying `p`, if there is one.
pub open spec fn first_where<T>(s: Seq<T>, p: spec_fn(T) -> bool) -> Option<int>
    decreases s.len(),
{
    if s.len() == 0 {
        None
    } else if p(s.first()) {
        Some(0)
    } else {
        match first_where(s.drop_first(), p) {
            Some(i) => Some(i + 1),
            None => None,
        }
    }
}

/// A position satisfying `p`, with no earlier one, is the first hit.
pub proof fn lemma_first_where_some<T>(s: Seq<T>, p: spec_fn(T) -> bool, i: int)
    requires
        0 <= i < s.len(),
        p(s[i]),
        forall|j: int| 0 <= j < i ==> !p(s[j]),
    ensures
        first_where(s, p) == Some(i),
    decreases i,
{
    if i == 0 {
    } else {
        assert(!p(s.first()));
        lemma_first_where_some(s.drop_first(), p, i - 1);
    }
}

/// A sequence with no element satisfying `p` has no first hit.
pub proof fn lemma_first_where_none<T>(s: Seq<T>, p: spec_fn(T) -> bool)
    requires
        forall|j: int| 0 <= j < s.len() ==> !p(s[j]),
    ensures
        first_where(s, p) is None,
    decreases s.len(),
{
    if s.len() == 0 {
    } else {
        lemma_first_where_none(s.drop_first(), p);
    }
}

/// What a first hit means: it satisfies `p` and nothing before it does.
pub proof fn lemma_first_where_props<T>(s: Seq<T>, p: spec_fn(T) -> bool)
    ensures
        first_where(s, p) matches Some(i) ==> 0 <= i < s.len() && p(s[i]) && (forall|j: int|
            0 <= j < i ==> !p(s[j])),
        first_where(s, p) is None ==> forall|j: int| 0 <= j < s.len() ==> !p(s[j]),
    decreases s.len(),
{
    if s.len() != 0 {
        lemma_first_where_props(s.drop_first(), p);
        if !p(s.first()) {
            match first_where(s.drop_first(), p) {
                Some(k) => {
                    assert(s.drop_first()[k] == s[k + 1]);
                    assert forall|j: int| 0 <= j < k + 1 implies !p(s[j]) by {
                        if j > 0 {
                            assert(s.drop_first()[j - 1] == s[j]);
                        }
                    }
                },
                None => {
                    assert forall|j: int| 0 <= j < s.len() implies !p(s[j]) by {
                        if j > 0 {
                            assert(s.drop_first()[j - 1] == s[j]);
                        }
                    }
                },
            }
        }
    }
}

} // verus!
