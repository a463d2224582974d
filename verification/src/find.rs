//! First-match lookup over a sequence, shared by the upsert contracts.

use vstd::prelude::*;

verus! {

/// The first index whose element satisfies `p`, if any.
pub open spec fn find_first<T>(s: Seq<T>, p: spec_fn(T) -> bool) -> Option<int>
    decreases s.len(),
{
    if s.len() == 0 {
        None
    } else if p(s[0]) {
        Some(0)
    } else {
        match find_first(s.skip(1), p) {
            Some(j) => Some(j + 1),
            None => None,
        }
    }
}

/// A witness index that is the first match pins `find_first` down.
pub proof fn lemma_find_first_hit<T>(s: Seq<T>, p: spec_fn(T) -> bool, i: int)
    requires
        0 <= i < s.len(),
        p(s[i]),
        forall|k: int| 0 <= k < i ==> !p(#[trigger] s[k]),
    ensures
        find_first(s, p) == Some(i),
    decreases i,
{
    if i == 0 {
    } else {
        assert(!p(s[0]));
        assert(s.skip(1)[i - 1] == s[i]);
        assert forall|k: int| 0 <= k < i - 1 implies !p(#[trigger] s.skip(1)[k]) by {
            assert(s.skip(1)[k] == s[k + 1]);
        }
        lemma_find_first_hit(s.skip(1), p, i - 1);
    }
}

/// With no matching element there is no first match.
pub proof fn lemma_find_first_miss<T>(s: Seq<T>, p: spec_fn(T) -> bool)
    requires
        forall|k: int| 0 <= k < s.len() ==> !p(#[trigger] s[k]),
    ensures
        find_first(s, p) is None,
    decreases s.len(),
{
    if s.len() > 0 {
        assert forall|k: int| 0 <= k < s.skip(1).len() implies !p(#[trigger] s.skip(1)[k]) by {
            assert(s.skip(1)[k] == s[k + 1]);
        }
        lemma_find_first_miss(s.skip(1), p);
    }
}

/// What a found index satisfies: in range, matching, and first.
pub proof fn lemma_find_first_props<T>(s: Seq<T>, p: spec_fn(T) -> bool, j: int)
    requires
        find_first(s, p) == Some(j),
    ensures
        0 <= j < s.len(),
        p(s[j]),
        forall|k: int| 0 <= k < j ==> !p(#[trigger] s[k]),
    decreases s.len(),
{
    if s.len() > 0 && !p(s[0]) {
        let inner = find_first(s.skip(1), p);
        assert(inner == Some(j - 1));
        lemma_find_first_props(s.skip(1), p, j - 1);
        assert(s.skip(1)[j - 1] == s[j]);
        assert forall|k: int| 0 <= k < j implies !p(#[trigger] s[k]) by {
            if k > 0 {
                assert(s.skip(1)[k - 1] == s[k]);
            }
        }
    }
}


/// With no first match there is no matching element at all.
pub proof fn lemma_find_first_none_props<T>(s: Seq<T>, p: spec_fn(T) -> bool)
    requires
        find_first(s, p) is None,
    ensures
        forall|k: int| 0 <= k < s.len() ==> !p(#[trigger] s[k]),
    decreases s.len(),
{
    if s.len() > 0 {
        lemma_find_first_none_props(s.skip(1), p);
        assert forall|k: int| 0 <= k < s.len() implies !p(#[trigger] s[k]) by {
            if k > 0 {
                assert(s.skip(1)[k - 1] == s[k]);
            }
        }
    }
}

} // verus!
