//! Finding the first element of a sequence that is wanted.

use vstd::prelude::*;

verus! {

/// `i` is the first place in `s` whose element is wanted.
pub open spec fn is_first<A>(s: Seq<A>, wanted: spec_fn(A) -> bool, i: int) -> bool {
    &&& 0 <= i < s.len()
    &&& wanted(s[i])
    &&& forall|j: int| 0 <= j < i ==> !wanted(#[trigger] s[j])
}

/// Some element of `s` is wanted.
pub open spec fn has_any<A>(s: Seq<A>, wanted: spec_fn(A) -> bool) -> bool {
    exists|i: int| 0 <= i < s.len() && wanted(#[trigger] s[i])
}

/// The first place in `s` whose element is wanted, if there is one.
pub open spec fn first_index<A>(s: Seq<A>, wanted: spec_fn(A) -> bool) -> Option<int> {
    if exists|i: int| is_first(s, wanted, i) {
        Some(choose|i: int| is_first(s, wanted, i))
    } else {
        None
    }
}

/// Only one place is the first.
pub proof fn lemma_first_index_is<A>(s: Seq<A>, wanted: spec_fn(A) -> bool, i: int)
    requires
        is_first(s, wanted, i),
    ensures
        first_index(s, wanted) == Some(i),
{
    let c = choose|c: int| is_first(s, wanted, c);
    assert(is_first(s, wanted, c));
    if c < i {
        assert(!wanted(s[c]));
    } else if i < c {
        assert(!wanted(s[i]));
    }
}

/// Where place `k` holds a wanted element, some place up to `k` is the first.
pub proof fn lemma_first_up_to<A>(s: Seq<A>, wanted: spec_fn(A) -> bool, k: int)
    requires
        0 <= k < s.len(),
        wanted(s[k]),
    ensures
        exists|i: int| 0 <= i <= k && is_first(s, wanted, i),
    decreases k,
{
    if exists|j: int| 0 <= j < k && wanted(#[trigger] s[j]) {
        let j = choose|j: int| 0 <= j < k && wanted(#[trigger] s[j]);
        lemma_first_up_to(s, wanted, j);
    } else {
        assert(is_first(s, wanted, k));
    }
}

/// There is a first place exactly where some element is wanted, and the
/// first place is a first place.
pub proof fn lemma_first_index<A>(s: Seq<A>, wanted: spec_fn(A) -> bool)
    ensures
        first_index(s, wanted) is Some <==> has_any(s, wanted),
        first_index(s, wanted) matches Some(i) ==> is_first(s, wanted, i),
{
    if has_any(s, wanted) {
        let k = choose|k: int| 0 <= k < s.len() && wanted(#[trigger] s[k]);
        lemma_first_up_to(s, wanted, k);
    }
    if first_index(s, wanted) is Some {
        let c = choose|c: int| is_first(s, wanted, c);
        assert(wanted(s[c]));
    }
}

/// Two sequences of one length that agree on which elements are wanted
/// have the same first place.
pub proof fn lemma_first_index_agrees<A>(
    s: Seq<A>,
    t: Seq<A>,
    wanted: spec_fn(A) -> bool,
)
    requires
        s.len() == t.len(),
        forall|i: int| 0 <= i < s.len() ==> wanted(#[trigger] s[i]) == wanted(t[i]),
    ensures
        first_index(t, wanted) == first_index(s, wanted),
{
    lemma_first_index(s, wanted);
    lemma_first_index(t, wanted);
    if first_index(s, wanted) is Some {
        let i = first_index(s, wanted)->0;
        assert(is_first(t, wanted, i)) by {
            assert(wanted(s[i]) == wanted(t[i]));
            assert forall|j: int| 0 <= j < i implies !wanted(#[trigger] t[j]) by {
                assert(wanted(s[j]) == wanted(t[j]));
            }
        }
        lemma_first_index_is(t, wanted, i);
    } else if first_index(t, wanted) is Some {
        let i = first_index(t, wanted)->0;
        assert(wanted(s[i]) == wanted(t[i]));
        assert(has_any(s, wanted));
    }
}

} // verus!
