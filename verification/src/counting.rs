//! Counting the elements of a sequence that satisfy a predicate.

use vstd::prelude::*;

verus! {

/// Number of elements of `s` that satisfy `wanted`.
pub open spec fn occurrences<A>(s: Seq<A>, wanted: spec_fn(A) -> bool) -> nat
    decreases s.len(),
{
    if s.len() == 0 {
        0
    } else {
        occurrences(s.drop_last(), wanted) + if wanted(s.last()) {
            1nat
        } else {
            0nat
        }
    }
}

/// One if the element counts, zero if not.
pub open spec fn one_if<A>(wanted: spec_fn(A) -> bool, a: A) -> nat {
    if wanted(a) {
        1
    } else {
        0
    }
}

/// Appending an element adds it to the count if it satisfies the predicate.
pub proof fn lemma_occurrences_push<A>(s: Seq<A>, a: A, wanted: spec_fn(A) -> bool)
    ensures
        occurrences(s.push(a), wanted) == occurrences(s, wanted) + one_if(wanted, a),
{
    assert(s.push(a).drop_last() =~= s);
}

/// The count of a concatenation is the sum of the counts.
pub proof fn lemma_occurrences_add<A>(a: Seq<A>, b: Seq<A>, wanted: spec_fn(A) -> bool)
    ensures
        occurrences(a + b, wanted) == occurrences(a, wanted) + occurrences(b, wanted),
    decreases b.len(),
{
    if b.len() == 0 {
        assert(a + b =~= a);
    } else {
        assert((a + b).drop_last() =~= a + b.drop_last());
        lemma_occurrences_add(a, b.drop_last(), wanted);
    }
}

/// Where no element satisfies the predicate the count is zero.
pub proof fn lemma_occurrences_none<A>(s: Seq<A>, wanted: spec_fn(A) -> bool)
    requires
        forall|k: int| 0 <= k < s.len() ==> !wanted(#[trigger] s[k]),
    ensures
        occurrences(s, wanted) == 0,
    decreases s.len(),
{
    if s.len() > 0 {
        let head = s.drop_last();
        assert forall|k: int| 0 <= k < head.len() implies !wanted(#[trigger] head[k]) by {
            assert(head[k] == s[k]);
        }
        lemma_occurrences_none(head, wanted);
        assert(!wanted(s[s.len() - 1]));
    }
}

/// Replacing an element by one that the predicate judges alike keeps the
/// count.
pub proof fn lemma_occurrences_update<A>(s: Seq<A>, i: int, a: A, wanted: spec_fn(A) -> bool)
    requires
        0 <= i < s.len(),
        wanted(a) == wanted(s[i]),
    ensures
        occurrences(s.update(i, a), wanted) == occurrences(s, wanted),
    decreases s.len(),
{
    if i == s.len() - 1 {
        assert(s.update(i, a).drop_last() =~= s.drop_last());
    } else {
        assert(s.update(i, a).drop_last() =~= s.drop_last().update(i, a));
        lemma_occurrences_update(s.drop_last(), i, a, wanted);
    }
}

/// Removing an element takes it off the count if it satisfies the
/// predicate.
pub proof fn lemma_occurrences_remove<A>(s: Seq<A>, i: int, wanted: spec_fn(A) -> bool)
    requires
        0 <= i < s.len(),
    ensures
        occurrences(s.remove(i), wanted) + one_if(wanted, s[i]) == occurrences(s, wanted),
    decreases s.len(),
{
    if i == s.len() - 1 {
        assert(s.remove(i) =~= s.drop_last());
    } else {
        assert(s.remove(i).drop_last() =~= s.drop_last().remove(i));
        assert(s.remove(i).last() == s.last());
        lemma_occurrences_remove(s.drop_last(), i, wanted);
    }
}

/// Splitting a sequence by a predicate and its opposite splits the count.
pub proof fn lemma_occurrences_split<A>(
    s: Seq<A>,
    kept: spec_fn(A) -> bool,
    dropped: spec_fn(A) -> bool,
    wanted: spec_fn(A) -> bool,
)
    requires
        forall|a: A| #[trigger] kept(a) <==> !dropped(a),
    ensures
        occurrences(s.filter(kept), wanted) + occurrences(s.filter(dropped), wanted)
            == occurrences(s, wanted),
    decreases s.len(),
{
    reveal(Seq::filter);
    if s.len() > 0 {
        let head = s.drop_last();
        let last = s.last();
        lemma_occurrences_split(head, kept, dropped, wanted);
        if kept(last) {
            lemma_occurrences_push(head.filter(kept), last, wanted);
        } else {
            assert(dropped(last));
            lemma_occurrences_push(head.filter(dropped), last, wanted);
        }
    }
}

/// Counting after a mapping is counting with the predicate carried back.
pub proof fn lemma_occurrences_map<A, B>(
    s: Seq<A>,
    f: spec_fn(A) -> B,
    wanted: spec_fn(B) -> bool,
    carried: spec_fn(A) -> bool,
)
    requires
        forall|a: A| #[trigger] carried(a) == wanted(f(a)),
    ensures
        occurrences(s.map_values(f), wanted) == occurrences(s, carried),
    decreases s.len(),
{
    if s.len() > 0 {
        assert(s.map_values(f).drop_last() =~= s.drop_last().map_values(f));
        assert(s.map_values(f).last() == f(s.last()));
        assert(carried(s.last()) == wanted(f(s.last())));
        lemma_occurrences_map(s.drop_last(), f, wanted, carried);
    }
}

} // verus!
