//! Every contributor of an entry is a backend that was allowed to report:
//! the merge rules add none but the reporting backend, and drop those that
//! withdraw.

use vstd::prelude::*;
use crate::identity::{BackendId, PeerInfoView};
use crate::merge::{
    after_discovered, after_lost, after_retire, after_sweep, attributed, fresh_at, lemma_slot,
    lemma_without, slot, stripped,
};

verus! {

/// Whether every contributor of every entry is in `allowed`.
pub open spec fn contributors_among(entries: Seq<PeerInfoView>, allowed: Set<BackendId>) -> bool {
    forall|i: int, t: BackendId|
        0 <= i < entries.len() && #[trigger] entries[i].transports.contains(t) ==> allowed.contains(
            t,
        )
}

/// Allowing more backends keeps the attribution valid.
pub proof fn lemma_contributors_widen(
    entries: Seq<PeerInfoView>,
    allowed: Set<BackendId>,
    wider: Set<BackendId>,
)
    requires
        contributors_among(entries, allowed),
        allowed.subset_of(wider),
    ensures
        contributors_among(entries, wider),
{
}

/// A sighting adds no contributor but the reporting backend.
pub proof fn lemma_discovered_contributors(
    entries: Seq<PeerInfoView>,
    allowed: Set<BackendId>,
    dedupe: bool,
    backend: BackendId,
    id: Seq<char>,
    signal: Option<i16>,
    now: u64,
)
    requires
        contributors_among(entries, allowed),
        allowed.contains(backend),
    ensures
        contributors_among(after_discovered(entries, dedupe, backend, id, signal, now), allowed),
{
    lemma_slot(entries, dedupe, backend, id);
    let s = slot(entries, dedupe, backend, id);
    let out = after_discovered(entries, dedupe, backend, id, signal, now);
    assert forall|i: int, t: BackendId|
        0 <= i < out.len() && #[trigger] out[i].transports.contains(t) implies allowed.contains(
        t,
    ) by {
        let m = choose|m: int| 0 <= m < out[i].transports.len() && out[i].transports[m] == t;
        if i == s {
            if s < entries.len() {
                if m < entries[s].transports.len() {
                    assert(entries[s].transports[m] == t);
                    assert(entries[s].transports.contains(t));
                }
            }
        } else {
            assert(out[i] == entries[i]);
            assert(entries[i].transports.contains(t));
        }
    }
}

/// A reported loss adds no contributor.
pub proof fn lemma_lost_contributors(
    entries: Seq<PeerInfoView>,
    allowed: Set<BackendId>,
    dedupe: bool,
    backend: BackendId,
    id: Seq<char>,
)
    requires
        contributors_among(entries, allowed),
    ensures
        contributors_among(after_lost(entries, dedupe, backend, id), allowed),
{
    lemma_slot(entries, dedupe, backend, id);
    let s = slot(entries, dedupe, backend, id);
    let out = after_lost(entries, dedupe, backend, id);
    if s < entries.len() {
        lemma_without(entries[s].transports, backend);
    }
    assert forall|i: int, t: BackendId|
        0 <= i < out.len() && #[trigger] out[i].transports.contains(t) implies allowed.contains(
        t,
    ) by {
        if out.len() < entries.len() {
            let i0 = if i < s { i } else { i + 1 };
            assert(out[i] == entries[i0]);
            assert(entries[i0].transports.contains(t));
        } else if out == entries {
            assert(entries[i].transports.contains(t));
        } else if i == s {
            assert(entries[s].transports.contains(t));
        } else {
            assert(out[i] == entries[i]);
            assert(entries[i].transports.contains(t));
        }
    }
}

/// A sweep adds no contributor.
pub proof fn lemma_sweep_contributors(
    entries: Seq<PeerInfoView>,
    allowed: Set<BackendId>,
    now: u64,
    ttl: u64,
)
    requires
        contributors_among(entries, allowed),
    ensures
        contributors_among(after_sweep(entries, now, ttl), allowed),
{
    let out = after_sweep(entries, now, ttl);
    assert forall|i: int, t: BackendId|
        0 <= i < out.len() && #[trigger] out[i].transports.contains(t) implies allowed.contains(
        t,
    ) by {
        assert(out.contains(out[i]));
        entries.lemma_filter_contains_rev(fresh_at(now, ttl), out[i]);
        let m = choose|m: int| 0 <= m < entries.len() && entries[m] == out[i];
        assert(entries[m].transports.contains(t));
    }
}

/// After a backend has withdrawn it contributes to no entry, and no
/// contributor was added.
pub proof fn lemma_retire_contributors(
    entries: Seq<PeerInfoView>,
    allowed: Set<BackendId>,
    backend: BackendId,
)
    requires
        contributors_among(entries, allowed),
    ensures
        contributors_among(after_retire(entries, backend), allowed.remove(backend)),
{
    let mapped = entries.map_values(stripped(backend));
    let out = after_retire(entries, backend);
    assert forall|i: int, t: BackendId|
        0 <= i < out.len() && #[trigger] out[i].transports.contains(t) implies allowed.remove(
        backend,
    ).contains(t) by {
        assert(out.contains(out[i]));
        mapped.lemma_filter_contains_rev(attributed(), out[i]);
        let m = choose|m: int| 0 <= m < mapped.len() && mapped[m] == out[i];
        lemma_without(entries[m].transports, backend);
        assert(entries[m].transports.contains(t));
    }
}

} // verus!
