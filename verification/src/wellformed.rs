//! Every merge rule keeps the table well formed.

use vstd::prelude::*;
use crate::identity::{BackendId, PeerInfoView};
use crate::merge::{
    after_discovered, after_lost, after_retire, after_sweep, attributed, claims, entry_wf, fresh_at,
    lemma_slot, lemma_without, refreshed, same_slot, sighted, slot, sole_contributor, stripped,
    table_wf, with_transports, without,
};

verus! {

/// Every entry of `derived` answers to the same sightings as some entry of
/// `source`.
pub open spec fn drawn_from(
    derived: Seq<PeerInfoView>,
    source: Seq<PeerInfoView>,
    dedupe: bool,
) -> bool {
    forall|k: int|
        0 <= k < derived.len() ==> exists|m: int|
            0 <= m < source.len() && same_slot(#[trigger] derived[k], #[trigger] source[m], dedupe)
}

/// Rewriting the entries without changing the sightings they answer to, and
/// then dropping some of them, keeps a table well formed.
pub proof fn lemma_refine(
    source: Seq<PeerInfoView>,
    rewrite: spec_fn(PeerInfoView) -> PeerInfoView,
    keep: spec_fn(PeerInfoView) -> bool,
    dedupe: bool,
)
    requires
        table_wf(source, dedupe),
        forall|e: PeerInfoView|
            entry_wf(e, dedupe) && keep(#[trigger] rewrite(e)) ==> entry_wf(rewrite(e), dedupe)
                && same_slot(rewrite(e), e, dedupe),
    ensures
        table_wf(source.map_values(rewrite).filter(keep), dedupe),
        drawn_from(source.map_values(rewrite).filter(keep), source, dedupe),
    decreases source.len(),
{
    reveal(Seq::filter);
    let mapped = source.map_values(rewrite);
    let result = mapped.filter(keep);
    if source.len() > 0 {
        let head = source.drop_last();
        let last = source.last();
        let sub = head.map_values(rewrite).filter(keep);
        assert(mapped.drop_last() =~= head.map_values(rewrite));
        assert(mapped.last() == rewrite(last));
        assert(table_wf(head, dedupe)) by {
            assert forall|i: int| 0 <= i < head.len() implies entry_wf(
                #[trigger] head[i],
                dedupe,
            ) by {
                assert(head[i] == source[i]);
            }
            assert forall|i: int, j: int| 0 <= i < j < head.len() implies !same_slot(
                #[trigger] head[i],
                #[trigger] head[j],
                dedupe,
            ) by {
                assert(head[i] == source[i] && head[j] == source[j]);
            }
        }
        lemma_refine(head, rewrite, keep, dedupe);
        assert(entry_wf(source[source.len() - 1], dedupe));
        assert forall|k: int| 0 <= k < result.len() implies exists|m: int|
            0 <= m < source.len() && same_slot(#[trigger] result[k], #[trigger] source[m], dedupe) by {
            if k < sub.len() {
                assert(result[k] == sub[k]);
                let m = choose|m: int|
                    0 <= m < head.len() && same_slot(sub[k], #[trigger] head[m], dedupe);
                assert(head[m] == source[m]);
                assert(same_slot(result[k], source[m], dedupe));
            } else {
                assert(result[k] == rewrite(last));
                assert(same_slot(result[k], source[source.len() - 1], dedupe));
            }
        }
        assert forall|i: int| 0 <= i < result.len() implies entry_wf(
            #[trigger] result[i],
            dedupe,
        ) by {
            if i < sub.len() {
                assert(result[i] == sub[i]);
            }
        }
        assert forall|i: int, j: int| 0 <= i < j < result.len() implies !same_slot(
            #[trigger] result[i],
            #[trigger] result[j],
            dedupe,
        ) by {
            assert(result[i] == sub[i]);
            if j < sub.len() {
                assert(result[j] == sub[j]);
            } else {
                let m = choose|m: int|
                    0 <= m < head.len() && same_slot(sub[i], #[trigger] head[m], dedupe);
                assert(head[m] == source[m]);
                assert(!same_slot(source[m], source[source.len() - 1], dedupe));
            }
        }
    }
}

/// A sighting keeps the table well formed.
pub proof fn lemma_discovered_wf(
    entries: Seq<PeerInfoView>,
    dedupe: bool,
    backend: BackendId,
    id: Seq<char>,
    signal: Option<i16>,
    now: u64,
)
    requires
        table_wf(entries, dedupe),
    ensures
        table_wf(after_discovered(entries, dedupe, backend, id, signal, now), dedupe),
{
    lemma_slot(entries, dedupe, backend, id);
    let i = slot(entries, dedupe, backend, id);
    let out = after_discovered(entries, dedupe, backend, id, signal, now);
    if i < entries.len() {
        let e = entries[i];
        let r = refreshed(e, backend, signal, now);
        assert(entry_wf(e, dedupe));
        assert(r.transports[0] == e.transports[0]);
        assert(entry_wf(r, dedupe));
        assert forall|k: int| 0 <= k < out.len() implies entry_wf(#[trigger] out[k], dedupe) by {
            if k != i {
                assert(out[k] == entries[k]);
            }
        }
        assert forall|a: int, b: int| 0 <= a < b < out.len() implies !same_slot(
            #[trigger] out[a],
            #[trigger] out[b],
            dedupe,
        ) by {
            assert(same_slot(out[a], out[b], dedupe) == same_slot(entries[a], entries[b], dedupe));
        }
    } else {
        let f = sighted(backend, id, signal, now);
        assert(f.transports[0] == backend);
        assert(entry_wf(f, dedupe));
        assert forall|k: int| 0 <= k < out.len() implies entry_wf(#[trigger] out[k], dedupe) by {
            if k < entries.len() {
                assert(out[k] == entries[k]);
            }
        }
        assert forall|a: int, b: int| 0 <= a < b < out.len() implies !same_slot(
            #[trigger] out[a],
            #[trigger] out[b],
            dedupe,
        ) by {
            assert(out[a] == entries[a]);
            if b < entries.len() {
                assert(out[b] == entries[b]);
            } else {
                assert(entry_wf(entries[a], dedupe));
                assert(!claims(entries[a], dedupe, backend, id));
                if !dedupe && entries[a].transports[0] == backend {
                    assert(entries[a].transports.contains(backend));
                }
            }
        }
    }
}

/// A singleton list loses its only element and nothing else.
pub proof fn lemma_without_single(transports: Seq<BackendId>, backend: BackendId)
    requires
        transports.len() == 1,
    ensures
        transports[0] == backend ==> without(transports, backend).len() == 0,
        transports[0] != backend ==> without(transports, backend) == transports,
{
    lemma_without(transports, backend);
    let rest = without(transports, backend);
    if transports[0] == backend {
        if rest.len() > 0 {
            assert(rest.contains(rest[0]));
            let m = choose|m: int| 0 <= m < transports.len() && transports[m] == rest[0];
            assert(m == 0);
        }
    } else {
        assert forall|m: int| 0 <= m < transports.len() implies transports[m] != backend by {
            assert(m == 0);
        }
        assert(!transports.contains(backend));
    }
}

/// A reported loss keeps the table well formed.
pub proof fn lemma_lost_wf(
    entries: Seq<PeerInfoView>,
    dedupe: bool,
    backend: BackendId,
    id: Seq<char>,
)
    requires
        table_wf(entries, dedupe),
    ensures
        table_wf(after_lost(entries, dedupe, backend, id), dedupe),
{
    lemma_slot(entries, dedupe, backend, id);
    let i = slot(entries, dedupe, backend, id);
    let out = after_lost(entries, dedupe, backend, id);
    if i < entries.len() && entries[i].transports.contains(backend) {
        let e = entries[i];
        assert(entry_wf(e, dedupe));
        lemma_without(e.transports, backend);
        if sole_contributor(e, backend) {
            assert forall|k: int| 0 <= k < out.len() implies entry_wf(#[trigger] out[k], dedupe) by {
                if k < i {
                    assert(out[k] == entries[k]);
                } else {
                    assert(out[k] == entries[k + 1]);
                }
            }
            assert forall|a: int, b: int| 0 <= a < b < out.len() implies !same_slot(
                #[trigger] out[a],
                #[trigger] out[b],
                dedupe,
            ) by {
                let a0 = if a < i { a } else { a + 1 };
                let b0 = if b < i { b } else { b + 1 };
                assert(out[a] == entries[a0]);
                assert(out[b] == entries[b0]);
            }
        } else {
            let rest = without(e.transports, backend);
            let r = with_transports(e, rest);
            if !dedupe {
                lemma_without_single(e.transports, backend);
                assert(e.transports[0] == backend) by {
                    let m = choose|m: int| 0 <= m < e.transports.len() && e.transports[m] == backend;
                    assert(m == 0);
                }
            }
            assert(dedupe);
            assert(entry_wf(r, dedupe));
            assert forall|k: int| 0 <= k < out.len() implies entry_wf(#[trigger] out[k], dedupe) by {
                if k != i {
                    assert(out[k] == entries[k]);
                }
            }
            assert forall|a: int, b: int| 0 <= a < b < out.len() implies !same_slot(
                #[trigger] out[a],
                #[trigger] out[b],
                dedupe,
            ) by {
                assert(out[a].id == entries[a].id);
                assert(out[b].id == entries[b].id);
                assert(!same_slot(entries[a], entries[b], dedupe));
            }
        }
    }
}

/// The identity on entries.
pub open spec fn unchanged() -> spec_fn(PeerInfoView) -> PeerInfoView {
    |e: PeerInfoView| e
}

/// A sweep keeps the table well formed, and every entry it keeps was there
/// before.
pub proof fn lemma_sweep_wf(entries: Seq<PeerInfoView>, dedupe: bool, now: u64, ttl: u64)
    requires
        table_wf(entries, dedupe),
    ensures
        table_wf(after_sweep(entries, now, ttl), dedupe),
{
    assert(entries.map_values(unchanged()) =~= entries);
    lemma_refine(entries, unchanged(), fresh_at(now, ttl), dedupe);
}

/// The withdrawal of a backend keeps the table well formed.
pub proof fn lemma_retire_wf(entries: Seq<PeerInfoView>, dedupe: bool, backend: BackendId)
    requires
        table_wf(entries, dedupe),
    ensures
        table_wf(after_retire(entries, backend), dedupe),
{
    assert forall|e: PeerInfoView|
        entry_wf(e, dedupe) && attributed()(#[trigger] stripped(backend)(e)) implies entry_wf(
        stripped(backend)(e),
        dedupe,
    ) && same_slot(stripped(backend)(e), e, dedupe) by {
        lemma_without(e.transports, backend);
        if !dedupe {
            lemma_without_single(e.transports, backend);
        }
    }
    lemma_refine(entries, stripped(backend), attributed(), dedupe);
}

} // verus!
