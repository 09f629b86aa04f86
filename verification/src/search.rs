//! Finding the first element of a sequence that satisfies a predicate.

use vstd::prelude::*;

verus! {

/// Index of the first element that satisfies `wanted`, or the length of the
/// sequence when none does.
pub open spec fn first_index<A>(s: Seq<A>, wanted: spec_fn(A) -> bool) -> int
    decreases s.len(),
{
    if s.len() == 0 {
        0
    } else if wanted(s[0]) {
        0
    } else {
        1 + first_index(s.drop_first(), wanted)
    }
}

/// `first_index` is in range, the element it names satisfies the
/// predicate, and no earlier element does.
pub proof fn lemma_first_index<A>(s: Seq<A>, wanted: spec_fn(A) -> bool)
    ensures
        0 <= first_index(s, wanted) <= s.len(),
        first_index(s, wanted) < s.len() ==> wanted(s[first_index(s, wanted)]),
        forall|k: int| 0 <= k < first_index(s, wanted) ==> !wanted(#[trigger] s[k]),
    decreases s.len(),
{
    if s.len() > 0 && !wanted(s[0]) {
        let rest = s.drop_first();
        lemma_first_index(rest, wanted);
        assert forall|k: int| 0 <= k < first_index(s, wanted) implies !wanted(#[trigger] s[k]) by {
            if k > 0 {
                assert(s[k] == rest[k - 1]);
            }
        }
    }
}

/// An index whose element satisfies the predicate, with no earlier one
/// that does, is the first index.
pub proof fn lemma_first_index_is<A>(s: Seq<A>, wanted: spec_fn(A) -> bool, i: int)
    requires
        0 <= i <= s.len(),
        i < s.len() ==> wanted(s[i]),
        forall|k: int| 0 <= k < i ==> !wanted(#[trigger] s[k]),
    ensures
        first_index(s, wanted) == i,
{
    lemma_first_index(s, wanted);
    let f = first_index(s, wanted);
    if f < i {
        assert(wanted(s[f]));
    } else if i < f {
        assert(wanted(s[i]));
    }
}

} // verus!
