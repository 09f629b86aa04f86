//! The merge rules, stated over the values of the table's entries.
//!
//! The table is a sequence of entries in the order in which their peers were
//! first announced. Every rule is a pair of functions: the table after the
//! step, and what the step emits.

use vstd::prelude::*;
use crate::discovery::DiscoveryEventView;
use crate::identity::{is_stale, BackendId, PeerInfoView};
use crate::search::{first_index, lemma_first_index, lemma_first_index_is};

verus! {

/// Whether a sighting of `id` by `backend` belongs to entry `e`. With
/// cross-transport merging every sighting of `id` does; without it only
/// those of a backend that already contributes to `e`.
pub open spec fn claims(e: PeerInfoView, dedupe: bool, backend: BackendId, id: Seq<char>) -> bool {
    e.id == id && (dedupe || e.transports.contains(backend))
}

/// The predicate "claims a sighting of `id` by `backend`".
pub open spec fn claiming(dedupe: bool, backend: BackendId, id: Seq<char>) -> spec_fn(
    PeerInfoView,
) -> bool {
    |e: PeerInfoView| claims(e, dedupe, backend, id)
}

/// Index of the first entry that claims the sighting, or the length of the
/// table when none does.
pub open spec fn slot(
    entries: Seq<PeerInfoView>,
    dedupe: bool,
    backend: BackendId,
    id: Seq<char>,
) -> int {
    first_index(entries, claiming(dedupe, backend, id))
}

/// Whether some entry claims the sighting.
pub open spec fn known(
    entries: Seq<PeerInfoView>,
    dedupe: bool,
    backend: BackendId,
    id: Seq<char>,
) -> bool {
    slot(entries, dedupe, backend, id) < entries.len()
}

/// The entry a first sighting creates.
pub open spec fn sighted(
    backend: BackendId,
    id: Seq<char>,
    signal: Option<i16>,
    now: u64,
) -> PeerInfoView {
    PeerInfoView { id, transports: seq![backend], last_seen: now, signal }
}

/// The entry after a further sighting by `backend` at `now`.
pub open spec fn refreshed(
    e: PeerInfoView,
    backend: BackendId,
    signal: Option<i16>,
    now: u64,
) -> PeerInfoView {
    PeerInfoView {
        id: e.id,
        transports: if e.transports.contains(backend) {
            e.transports
        } else {
            e.transports.push(backend)
        },
        last_seen: now,
        signal,
    }
}

/// The predicate "is not `backend`".
pub open spec fn other_than(backend: BackendId) -> spec_fn(BackendId) -> bool {
    |t: BackendId| t != backend
}

/// The contributors that remain once `backend` has withdrawn.
pub open spec fn without(transports: Seq<BackendId>, backend: BackendId) -> Seq<BackendId> {
    transports.filter(other_than(backend))
}

/// The entry with another list of contributors.
pub open spec fn with_transports(e: PeerInfoView, transports: Seq<BackendId>) -> PeerInfoView {
    PeerInfoView { id: e.id, transports, last_seen: e.last_seen, signal: e.signal }
}

/// Whether `backend` is the only contributor of `e`.
pub open spec fn sole_contributor(e: PeerInfoView, backend: BackendId) -> bool {
    e.transports.contains(backend) && without(e.transports, backend).len() == 0
}

/// The table after `backend` sighted `id` at `now`.
pub open spec fn after_discovered(
    entries: Seq<PeerInfoView>,
    dedupe: bool,
    backend: BackendId,
    id: Seq<char>,
    signal: Option<i16>,
    now: u64,
) -> Seq<PeerInfoView> {
    let i = slot(entries, dedupe, backend, id);
    if i < entries.len() {
        entries.update(i, refreshed(entries[i], backend, signal, now))
    } else {
        entries.push(sighted(backend, id, signal, now))
    }
}

/// What a sighting emits: an announcement when the peer was not in the
/// table, nothing when it was.
pub open spec fn announced(
    entries: Seq<PeerInfoView>,
    dedupe: bool,
    backend: BackendId,
    id: Seq<char>,
    signal: Option<i16>,
    now: u64,
) -> Option<DiscoveryEventView> {
    if known(entries, dedupe, backend, id) {
        None
    } else {
        Some(DiscoveryEventView::PeerDiscovered(sighted(backend, id, signal, now)))
    }
}

/// The table after `backend` reported the loss of `id`.
pub open spec fn after_lost(
    entries: Seq<PeerInfoView>,
    dedupe: bool,
    backend: BackendId,
    id: Seq<char>,
) -> Seq<PeerInfoView> {
    let i = slot(entries, dedupe, backend, id);
    if i < entries.len() && entries[i].transports.contains(backend) {
        if sole_contributor(entries[i], backend) {
            entries.remove(i)
        } else {
            entries.update(i, with_transports(entries[i], without(entries[i].transports, backend)))
        }
    } else {
        entries
    }
}

/// What a reported loss emits: the loss of the peer when `backend` was its
/// last contributor, nothing otherwise. The event carries the entry as it
/// stood before the loss.
pub open spec fn withdrawn(
    entries: Seq<PeerInfoView>,
    dedupe: bool,
    backend: BackendId,
    id: Seq<char>,
) -> Option<DiscoveryEventView> {
    let i = slot(entries, dedupe, backend, id);
    if i < entries.len() && sole_contributor(entries[i], backend) {
        Some(DiscoveryEventView::PeerLost(entries[i]))
    } else {
        None
    }
}

/// The predicate "is stale at `now`".
pub open spec fn stale_at(now: u64, ttl: u64) -> spec_fn(PeerInfoView) -> bool {
    |e: PeerInfoView| is_stale(e.last_seen, now, ttl)
}

/// The predicate "is fresh at `now`".
pub open spec fn fresh_at(now: u64, ttl: u64) -> spec_fn(PeerInfoView) -> bool {
    |e: PeerInfoView| !is_stale(e.last_seen, now, ttl)
}

/// Wraps an entry into the event that reports its loss.
pub open spec fn as_lost() -> spec_fn(PeerInfoView) -> DiscoveryEventView {
    |e: PeerInfoView| DiscoveryEventView::PeerLost(e)
}

/// The table after a sweep at `now`: the fresh entries, in order.
pub open spec fn after_sweep(entries: Seq<PeerInfoView>, now: u64, ttl: u64) -> Seq<PeerInfoView> {
    entries.filter(fresh_at(now, ttl))
}

/// What a sweep emits: one loss for every stale entry, in table order.
pub open spec fn swept(entries: Seq<PeerInfoView>, now: u64, ttl: u64) -> Seq<DiscoveryEventView> {
    entries.filter(stale_at(now, ttl)).map_values(as_lost())
}

/// The entry once `backend` has withdrawn from it.
pub open spec fn stripped(backend: BackendId) -> spec_fn(PeerInfoView) -> PeerInfoView {
    |e: PeerInfoView| with_transports(e, without(e.transports, backend))
}

/// The predicate "has a contributor".
pub open spec fn attributed() -> spec_fn(PeerInfoView) -> bool {
    |e: PeerInfoView| e.transports.len() > 0
}

/// The predicate "`backend` is the only contributor".
pub open spec fn only_from(backend: BackendId) -> spec_fn(PeerInfoView) -> bool {
    |e: PeerInfoView| sole_contributor(e, backend)
}

/// The table after `backend` withdrew from every entry.
pub open spec fn after_retire(entries: Seq<PeerInfoView>, backend: BackendId) -> Seq<PeerInfoView> {
    entries.map_values(stripped(backend)).filter(attributed())
}

/// What the withdrawal of `backend` emits: one loss for every entry it was
/// the only contributor of, in table order.
pub open spec fn orphaned(entries: Seq<PeerInfoView>, backend: BackendId) -> Seq<
    DiscoveryEventView,
> {
    entries.filter(only_from(backend)).map_values(as_lost())
}

/// The table after a backend's event arrived at `now`.
pub open spec fn merged(
    entries: Seq<PeerInfoView>,
    dedupe: bool,
    backend: BackendId,
    event: DiscoveryEventView,
    now: u64,
) -> Seq<PeerInfoView> {
    match event {
        DiscoveryEventView::PeerDiscovered(p) => after_discovered(
            entries,
            dedupe,
            backend,
            p.id,
            p.signal,
            now,
        ),
        DiscoveryEventView::PeerLost(p) => after_lost(entries, dedupe, backend, p.id),
    }
}

/// What the merge of a backend's event emits.
pub open spec fn emitted(
    entries: Seq<PeerInfoView>,
    dedupe: bool,
    backend: BackendId,
    event: DiscoveryEventView,
    now: u64,
) -> Option<DiscoveryEventView> {
    match event {
        DiscoveryEventView::PeerDiscovered(p) => announced(
            entries,
            dedupe,
            backend,
            p.id,
            p.signal,
            now,
        ),
        DiscoveryEventView::PeerLost(p) => withdrawn(entries, dedupe, backend, p.id),
    }
}

/// Whether two entries would answer to the same sighting.
pub open spec fn same_slot(a: PeerInfoView, b: PeerInfoView, dedupe: bool) -> bool {
    a.id == b.id && (dedupe || a.transports[0] == b.transports[0])
}

/// An entry has at least one contributor and lists none twice; without
/// cross-transport merging it has exactly one.
pub open spec fn entry_wf(e: PeerInfoView, dedupe: bool) -> bool {
    &&& e.transports.len() > 0
    &&& e.transports.no_duplicates()
    &&& !dedupe ==> e.transports.len() == 1
}

/// The table's invariant: every entry is attributed, and no two entries
/// answer to the same sighting.
pub open spec fn table_wf(entries: Seq<PeerInfoView>, dedupe: bool) -> bool {
    &&& forall|i: int| 0 <= i < entries.len() ==> entry_wf(#[trigger] entries[i], dedupe)
    &&& forall|i: int, j: int|
        0 <= i < j < entries.len() ==> !same_slot(
            #[trigger] entries[i],
            #[trigger] entries[j],
            dedupe,
        )
}

/// `slot` is in range, the entry it names claims the sighting, and no
/// earlier entry does.
pub proof fn lemma_slot(entries: Seq<PeerInfoView>, dedupe: bool, backend: BackendId, id: Seq<char>)
    ensures
        0 <= slot(entries, dedupe, backend, id) <= entries.len(),
        known(entries, dedupe, backend, id) ==> claims(
            entries[slot(entries, dedupe, backend, id)],
            dedupe,
            backend,
            id,
        ),
        forall|k: int|
            0 <= k < slot(entries, dedupe, backend, id) ==> !claims(
                #[trigger] entries[k],
                dedupe,
                backend,
                id,
            ),
{
    lemma_first_index(entries, claiming(dedupe, backend, id));
}

/// An index that claims the sighting, with no earlier one that does, is the
/// slot.
pub proof fn lemma_slot_is(
    entries: Seq<PeerInfoView>,
    dedupe: bool,
    backend: BackendId,
    id: Seq<char>,
    i: int,
)
    requires
        0 <= i <= entries.len(),
        i < entries.len() ==> claims(entries[i], dedupe, backend, id),
        forall|k: int| 0 <= k < i ==> !claims(#[trigger] entries[k], dedupe, backend, id),
    ensures
        slot(entries, dedupe, backend, id) == i,
{
    lemma_first_index_is(entries, claiming(dedupe, backend, id), i);
}

/// In a well-formed table at most one entry claims a sighting: an entry
/// that does sits at the sighting's slot.
pub proof fn lemma_claim_unique(
    entries: Seq<PeerInfoView>,
    dedupe: bool,
    backend: BackendId,
    id: Seq<char>,
    i: int,
)
    requires
        table_wf(entries, dedupe),
        0 <= i < entries.len(),
        claims(entries[i], dedupe, backend, id),
    ensures
        slot(entries, dedupe, backend, id) == i,
        known(entries, dedupe, backend, id),
{
    assert forall|k: int| 0 <= k < i implies !claims(#[trigger] entries[k], dedupe, backend, id) by {
        if claims(entries[k], dedupe, backend, id) {
            assert(entry_wf(entries[k], dedupe));
            assert(entry_wf(entries[i], dedupe));
            assert(same_slot(entries[k], entries[i], dedupe));
        }
    }
    lemma_slot_is(entries, dedupe, backend, id, i);
}

/// Withdrawing a backend keeps the other contributors, in order and without
/// repetition.
pub proof fn lemma_without(transports: Seq<BackendId>, backend: BackendId)
    ensures
        without(transports, backend).len() <= transports.len(),
        !without(transports, backend).contains(backend),
        forall|t: BackendId|
            #[trigger] without(transports, backend).contains(t) <==> transports.contains(t) && t
                != backend,
        transports.no_duplicates() ==> without(transports, backend).no_duplicates(),
        !transports.contains(backend) ==> without(transports, backend) == transports,
    decreases transports.len(),
{
    reveal(Seq::filter);
    let out = without(transports, backend);
    if transports.len() > 0 {
        let head = transports.drop_last();
        let last = transports.last();
        let sub = without(head, backend);
        lemma_without(head, backend);
        assert forall|t: BackendId| #[trigger] out.contains(t) <==> transports.contains(t) && t
            != backend by {
            if out.contains(t) {
                let k = choose|k: int| 0 <= k < out.len() && out[k] == t;
                if k < sub.len() {
                    assert(sub[k] == t);
                    assert(sub.contains(t));
                    let m = choose|m: int| 0 <= m < head.len() && head[m] == t;
                    assert(transports[m] == t);
                } else {
                    assert(transports[transports.len() - 1] == t);
                }
            }
            if transports.contains(t) && t != backend {
                let m = choose|m: int| 0 <= m < transports.len() && transports[m] == t;
                if m < head.len() {
                    assert(head[m] == t);
                    assert(head.contains(t));
                    assert(sub.contains(t));
                    let k = choose|k: int| 0 <= k < sub.len() && sub[k] == t;
                    assert(out[k] == t);
                } else {
                    assert(out[out.len() - 1] == t);
                }
            }
        }
        if transports.no_duplicates() {
            assert(head.no_duplicates());
            assert forall|a: int, b: int| 0 <= a < out.len() && 0 <= b < out.len() && a
                != b implies out[a] != out[b] by {
                if a < sub.len() && b < sub.len() {
                    assert(sub[a] != sub[b]);
                } else {
                    let inner = if a < sub.len() { a } else { b };
                    assert(sub.contains(sub[inner]));
                    let m = choose|m: int| 0 <= m < head.len() && head[m] == sub[inner];
                    assert(transports[m] != transports[transports.len() - 1]);
                }
            }
        }
        if !transports.contains(backend) {
            assert forall|m: int| 0 <= m < head.len() implies head[m] != backend by {
                assert(transports[m] == head[m]);
            }
            assert(!head.contains(backend));
            assert(last != backend) by {
                assert(transports[transports.len() - 1] == last);
            }
            assert(out =~= transports);
        }
    }
}

} // verus!
