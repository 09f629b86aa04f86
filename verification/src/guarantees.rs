//! What the merge rules guarantee to a consumer of the merged stream.

use vstd::prelude::*;
use crate::discovery::DiscoveryEventView;
use crate::identity::{is_stale, BackendId, PeerInfoView};
use crate::merge::{
    after_discovered, after_lost, after_retire, after_sweep, announced, attributed, claims,
    entry_wf, fresh_at, known, lemma_claim_unique, lemma_slot, lemma_without, only_from,
    orphaned,
    other_than, refreshed, same_slot, sighted, slot, stale_at, stripped, swept,
    table_wf, with_transports, withdrawn, without,
};
use crate::wellformed::{
    lemma_discovered_wf, lemma_lost_wf, lemma_refine, lemma_sweep_wf, unchanged,
};

verus! {

/// A sighting is known exactly when some entry claims it.
pub proof fn lemma_known(
    entries: Seq<PeerInfoView>,
    dedupe: bool,
    backend: BackendId,
    id: Seq<char>,
)
    ensures
        known(entries, dedupe, backend, id) <==> exists|i: int|
            0 <= i < entries.len() && claims(#[trigger] entries[i], dedupe, backend, id),
{
    lemma_slot(entries, dedupe, backend, id);
    if known(entries, dedupe, backend, id) {
        assert(claims(entries[slot(entries, dedupe, backend, id)], dedupe, backend, id));
    }
}

/// Withdrawing from an empty list leaves it empty.
pub proof fn lemma_without_empty(backend: BackendId)
    ensures
        without(Seq::<BackendId>::empty(), backend) == Seq::<BackendId>::empty(),
{
    reveal(Seq::filter);
}

/// Withdrawing from a list that grew by one contributor.
pub proof fn lemma_without_push(transports: Seq<BackendId>, backend: BackendId, last: BackendId)
    ensures
        without(transports.push(last), backend) == if last != backend {
            without(transports, backend).push(last)
        } else {
            without(transports, backend)
        },
{
    transports.lemma_filter_push(last, other_than(backend));
}

/// Two predicates that split the elements split the sequence.
pub proof fn lemma_partition<A>(s: Seq<A>, p: spec_fn(A) -> bool, q: spec_fn(A) -> bool)
    requires
        forall|a: A| #[trigger] p(a) <==> !q(a),
    ensures
        s.filter(p).len() + s.filter(q).len() == s.len(),
    decreases s.len(),
{
    reveal(Seq::filter);
    if s.len() > 0 {
        lemma_partition(s.drop_last(), p, q);
    }
}

/// Once a backend has sighted a peer, a further sighting that belongs to
/// the same entry emits nothing: with cross-transport merging that is a
/// sighting by any backend, without it one by the same backend. The first
/// sighting of a peer that was not in the table announces it.
pub proof fn repeated_sighting_is_silent(
    entries: Seq<PeerInfoView>,
    dedupe: bool,
    first_backend: BackendId,
    second_backend: BackendId,
    id: Seq<char>,
    first_signal: Option<i16>,
    second_signal: Option<i16>,
    first_time: u64,
    second_time: u64,
)
    requires
        table_wf(entries, dedupe),
        dedupe || first_backend == second_backend,
    ensures
        !known(entries, dedupe, first_backend, id) ==> announced(
            entries,
            dedupe,
            first_backend,
            id,
            first_signal,
            first_time,
        ) == Some(
            DiscoveryEventView::PeerDiscovered(sighted(first_backend, id, first_signal, first_time)),
        ),
        known(
            after_discovered(entries, dedupe, first_backend, id, first_signal, first_time),
            dedupe,
            second_backend,
            id,
        ),
        announced(
            after_discovered(entries, dedupe, first_backend, id, first_signal, first_time),
            dedupe,
            second_backend,
            id,
            second_signal,
            second_time,
        ) is None,
        after_discovered(
            after_discovered(entries, dedupe, first_backend, id, first_signal, first_time),
            dedupe,
            second_backend,
            id,
            second_signal,
            second_time,
        ).len() == after_discovered(
            entries,
            dedupe,
            first_backend,
            id,
            first_signal,
            first_time,
        ).len(),
{
    lemma_slot(entries, dedupe, first_backend, id);
    let i = slot(entries, dedupe, first_backend, id);
    let first = after_discovered(entries, dedupe, first_backend, id, first_signal, first_time);
    if i < entries.len() {
        let r = refreshed(entries[i], first_backend, first_signal, first_time);
        if !entries[i].transports.contains(first_backend) {
            assert(r.transports[r.transports.len() - 1] == first_backend);
        }
        assert(r.transports.contains(first_backend));
    } else {
        assert(sighted(first_backend, id, first_signal, first_time).transports[0]
            == first_backend);
    }
    assert(claims(first[i], dedupe, second_backend, id));
    lemma_known(first, dedupe, second_backend, id);
    lemma_slot(first, dedupe, second_backend, id);
}

/// With cross-transport merging, two backends that sight the same peer
/// yield one announcement. While the entry is fresh a sweep emits no loss
/// of the peer, and the loss reported by one of the two backends emits
/// nothing: only the loss reported by the second one does, and it carries
/// the entry as the last contributor left it.
pub proof fn two_transports_one_peer(
    entries: Seq<PeerInfoView>,
    x: BackendId,
    y: BackendId,
    id: Seq<char>,
    x_signal: Option<i16>,
    y_signal: Option<i16>,
    x_time: u64,
    y_time: u64,
    now: u64,
    ttl: u64,
)
    requires
        table_wf(entries, true),
        !known(entries, true, x, id),
        x != y,
        !is_stale(y_time, now, ttl),
    ensures
        ({
            let first = after_discovered(entries, true, x, id, x_signal, x_time);
            let second = after_discovered(first, true, y, id, y_signal, y_time);
            let left_by_x = PeerInfoView {
                id,
                transports: seq![y],
                last_seen: y_time,
                signal: y_signal,
            };
            let left_by_y = PeerInfoView {
                id,
                transports: seq![x],
                last_seen: y_time,
                signal: y_signal,
            };
            &&& announced(entries, true, x, id, x_signal, x_time) == Some(
                DiscoveryEventView::PeerDiscovered(sighted(x, id, x_signal, x_time)),
            )
            &&& announced(first, true, y, id, y_signal, y_time) is None
            &&& forall|k: int|
                0 <= k < swept(second, now, ttl).len() ==> (#[trigger] swept(
                    second,
                    now,
                    ttl,
                )[k]).peer().id != id
            &&& withdrawn(second, true, x, id) is None
            &&& withdrawn(after_lost(second, true, x, id), true, y, id) == Some(
                DiscoveryEventView::PeerLost(left_by_x),
            )
            &&& withdrawn(second, true, y, id) is None
            &&& withdrawn(after_lost(second, true, y, id), true, x, id) == Some(
                DiscoveryEventView::PeerLost(left_by_y),
            )
        }),
{
    let n = entries.len() as int;
    let first = after_discovered(entries, true, x, id, x_signal, x_time);
    let second = after_discovered(first, true, y, id, y_signal, y_time);
    let both = PeerInfoView {
        id,
        transports: seq![x, y],
        last_seen: y_time,
        signal: y_signal,
    };
    lemma_slot(entries, true, x, id);
    assert(first == entries.push(sighted(x, id, x_signal, x_time)));
    lemma_discovered_wf(entries, true, x, id, x_signal, x_time);
    lemma_claim_unique(first, true, y, id, n);
    assert(sighted(x, id, x_signal, x_time).transports =~= Seq::<BackendId>::empty().push(x));
    assert(!sighted(x, id, x_signal, x_time).transports.contains(y)) by {
        let t = sighted(x, id, x_signal, x_time).transports;
        assert forall|m: int| 0 <= m < t.len() implies t[m] != y by {}
    }
    assert(refreshed(first[n], y, y_signal, y_time).transports =~= seq![x, y]);
    assert(second == first.update(n, both));
    lemma_discovered_wf(first, true, y, id, y_signal, y_time);
    lemma_claim_unique(second, true, x, id, n);
    lemma_claim_unique(second, true, y, id, n);

    lemma_without_empty(x);
    lemma_without_empty(y);
    lemma_without_push(Seq::<BackendId>::empty(), x, x);
    lemma_without_push(Seq::<BackendId>::empty(), y, x);
    lemma_without_push(Seq::<BackendId>::empty().push(x), x, y);
    lemma_without_push(Seq::<BackendId>::empty().push(x), y, y);
    lemma_without_push(Seq::<BackendId>::empty(), x, y);
    lemma_without_push(Seq::<BackendId>::empty(), y, y);
    assert(seq![x, y] =~= Seq::<BackendId>::empty().push(x).push(y));
    assert(seq![x] =~= Seq::<BackendId>::empty().push(x));
    assert(seq![y] =~= Seq::<BackendId>::empty().push(y));
    assert(without(seq![x, y], x) =~= seq![y]);
    assert(without(seq![x, y], y) =~= seq![x]);
    assert(without(seq![y], y).len() == 0);
    assert(without(seq![x], x).len() == 0);
    assert(both.transports[0] == x && both.transports[1] == y);
    assert(both.transports.contains(x) && both.transports.contains(y));

    let after_x = after_lost(second, true, x, id);
    assert(after_x == second.update(n, with_transports(both, seq![y])));
    assert(table_wf(after_x, true)) by {
        lemma_lost_wf(second, true, x, id);
    }
    lemma_claim_unique(after_x, true, y, id, n);
    assert(seq![y][0] == y);
    assert(seq![y].contains(y));

    let after_y = after_lost(second, true, y, id);
    assert(after_y == second.update(n, with_transports(both, seq![x])));
    assert(table_wf(after_y, true)) by {
        lemma_lost_wf(second, true, y, id);
    }
    lemma_claim_unique(after_y, true, x, id, n);
    assert(seq![x][0] == x);
    assert(seq![x].contains(x));

    let stale = second.filter(stale_at(now, ttl));
    assert forall|k: int| 0 <= k < swept(second, now, ttl).len() implies (#[trigger] swept(
        second,
        now,
        ttl,
    )[k]).peer().id != id by {
        let e = stale[k];
        assert(swept(second, now, ttl)[k].peer() == e);
        second.lemma_filter_pred(stale_at(now, ttl), k);
        assert(stale.contains(e));
        second.lemma_filter_contains_rev(stale_at(now, ttl), e);
        let m = choose|m: int| 0 <= m < second.len() && second[m] == e;
        if e.id == id {
            lemma_claim_unique(second, true, x, id, m);
        }
    }
}

/// A stale entry yields exactly one loss at the sweep: one event carries
/// it, no other event of the sweep answers to the same sightings, no entry
/// that does is left, and a second sweep at the same instant emits nothing.
pub proof fn stale_peer_is_lost_once(
    entries: Seq<PeerInfoView>,
    dedupe: bool,
    now: u64,
    ttl: u64,
    i: int,
)
    requires
        table_wf(entries, dedupe),
        0 <= i < entries.len(),
        is_stale(entries[i].last_seen, now, ttl),
    ensures
        exists|k: int|
            0 <= k < swept(entries, now, ttl).len() && #[trigger] swept(entries, now, ttl)[k]
                == DiscoveryEventView::PeerLost(entries[i]) && forall|j: int|
                0 <= j < swept(entries, now, ttl).len() && j != k ==> !same_slot(
                    (#[trigger] swept(entries, now, ttl)[j]).peer(),
                    entries[i],
                    dedupe,
                ),
        forall|k: int|
            0 <= k < after_sweep(entries, now, ttl).len() ==> !same_slot(
                #[trigger] after_sweep(entries, now, ttl)[k],
                entries[i],
                dedupe,
            ),
        swept(after_sweep(entries, now, ttl), now, ttl).len() == 0,
        after_sweep(after_sweep(entries, now, ttl), now, ttl) == after_sweep(entries, now, ttl),
{
    let stale = entries.filter(stale_at(now, ttl));
    let fresh = after_sweep(entries, now, ttl);
    let events = swept(entries, now, ttl);
    entries.lemma_filter_contains(stale_at(now, ttl), i);
    let k = choose|k: int| 0 <= k < stale.len() && stale[k] == entries[i];
    assert(entries.map_values(unchanged()) =~= entries);
    lemma_refine(entries, unchanged(), stale_at(now, ttl), dedupe);
    assert(events[k] == DiscoveryEventView::PeerLost(entries[i]));
    assert forall|j: int| 0 <= j < events.len() && j != k implies !same_slot(
        (#[trigger] events[j]).peer(),
        entries[i],
        dedupe,
    ) by {
        assert(events[j].peer() == stale[j]);
        if j < k {
            assert(!same_slot(stale[j], stale[k], dedupe));
        } else {
            assert(!same_slot(stale[k], stale[j], dedupe));
        }
    }
    assert forall|m: int| 0 <= m < fresh.len() implies !same_slot(
        #[trigger] fresh[m],
        entries[i],
        dedupe,
    ) by {
        entries.lemma_filter_pred(fresh_at(now, ttl), m);
        assert(fresh.contains(fresh[m]));
        entries.lemma_filter_contains_rev(fresh_at(now, ttl), fresh[m]);
        let a = choose|a: int| 0 <= a < entries.len() && entries[a] == fresh[m];
        if a < i {
            assert(!same_slot(entries[a], entries[i], dedupe));
        } else if i < a {
            assert(!same_slot(entries[i], entries[a], dedupe));
        }
    }
    lemma_sweep_settles(entries, now, ttl);
}

/// After a sweep no entry is stale at the instant of the sweep.
pub proof fn lemma_sweep_settles(entries: Seq<PeerInfoView>, now: u64, ttl: u64)
    ensures
        swept(after_sweep(entries, now, ttl), now, ttl).len() == 0,
        after_sweep(after_sweep(entries, now, ttl), now, ttl) == after_sweep(entries, now, ttl),
{
    let fresh = after_sweep(entries, now, ttl);
    assert forall|m: int| 0 <= m < fresh.len() implies fresh_at(now, ttl)(fresh[m]) by {
        entries.lemma_filter_pred(fresh_at(now, ttl), m);
    }
    lemma_filter_all(fresh, fresh_at(now, ttl), stale_at(now, ttl));
}

/// A predicate that holds of every element keeps them all, and its
/// opposite keeps none.
pub proof fn lemma_filter_all<A>(s: Seq<A>, p: spec_fn(A) -> bool, q: spec_fn(A) -> bool)
    requires
        forall|m: int| 0 <= m < s.len() ==> p(#[trigger] s[m]),
        forall|a: A| #[trigger] p(a) <==> !q(a),
    ensures
        s.filter(p) == s,
        s.filter(q).len() == 0,
    decreases s.len(),
{
    reveal(Seq::filter);
    if s.len() > 0 {
        let head = s.drop_last();
        assert forall|m: int| 0 <= m < head.len() implies p(#[trigger] head[m]) by {
            assert(head[m] == s[m]);
        }
        lemma_filter_all(head, p, q);
        assert(p(s[s.len() - 1]));
        assert(head.push(s.last()) =~= s);
    }
}

/// A sighting of a peer whose entry a sweep has evicted announces the peer
/// anew, with the new sighting alone.
pub proof fn sighting_after_expiry_is_fresh(
    entries: Seq<PeerInfoView>,
    dedupe: bool,
    now: u64,
    ttl: u64,
    i: int,
    backend: BackendId,
    signal: Option<i16>,
    later: u64,
)
    requires
        table_wf(entries, dedupe),
        0 <= i < entries.len(),
        is_stale(entries[i].last_seen, now, ttl),
        claims(entries[i], dedupe, backend, entries[i].id),
    ensures
        announced(
            after_sweep(entries, now, ttl),
            dedupe,
            backend,
            entries[i].id,
            signal,
            later,
        ) == Some(
            DiscoveryEventView::PeerDiscovered(sighted(backend, entries[i].id, signal, later)),
        ),
{
    let fresh = after_sweep(entries, now, ttl);
    let id = entries[i].id;
    stale_peer_is_lost_once(entries, dedupe, now, ttl, i);
    lemma_sweep_wf(entries, dedupe, now, ttl);
    lemma_known(fresh, dedupe, backend, id);
    if known(fresh, dedupe, backend, id) {
        let k = choose|k: int| 0 <= k < fresh.len() && claims(#[trigger] fresh[k], dedupe, backend, id);
        assert(entry_wf(fresh[k], dedupe));
        assert(entry_wf(entries[i], dedupe));
        if !dedupe {
            lemma_single_contributor(fresh[k].transports, backend);
            lemma_single_contributor(entries[i].transports, backend);
        }
        assert(same_slot(fresh[k], entries[i], dedupe));
    }
}

/// A list of one contributor that contains `backend` starts with it.
pub proof fn lemma_single_contributor(transports: Seq<BackendId>, backend: BackendId)
    requires
        transports.len() == 1,
        transports.contains(backend),
    ensures
        transports[0] == backend,
{
    let m = choose|m: int| 0 <= m < transports.len() && transports[m] == backend;
    assert(m == 0);
}

/// A sighting adds an entry exactly when it announces a peer.
pub proof fn sighting_balances(
    entries: Seq<PeerInfoView>,
    dedupe: bool,
    backend: BackendId,
    id: Seq<char>,
    signal: Option<i16>,
    now: u64,
)
    ensures
        after_discovered(entries, dedupe, backend, id, signal, now).len() == entries.len() + (if announced(
            entries,
            dedupe,
            backend,
            id,
            signal,
            now,
        ) is Some {
            1int
        } else {
            0int
        }),
        known(after_discovered(entries, dedupe, backend, id, signal, now), dedupe, backend, id),
{
    lemma_slot(entries, dedupe, backend, id);
    let i = slot(entries, dedupe, backend, id);
    let out = after_discovered(entries, dedupe, backend, id, signal, now);
    if i < entries.len() {
        let r = refreshed(entries[i], backend, signal, now);
        if !entries[i].transports.contains(backend) {
            assert(r.transports[r.transports.len() - 1] == backend);
        }
    } else {
        assert(sighted(backend, id, signal, now).transports[0] == backend);
    }
    assert(claims(out[i], dedupe, backend, id));
    lemma_known(out, dedupe, backend, id);
}

/// A reported loss removes an entry exactly when it emits the loss of a
/// peer, and then no entry is left that claims the backend's sighting.
pub proof fn loss_balances(
    entries: Seq<PeerInfoView>,
    dedupe: bool,
    backend: BackendId,
    id: Seq<char>,
)
    requires
        table_wf(entries, dedupe),
    ensures
        after_lost(entries, dedupe, backend, id).len() == entries.len() - (if withdrawn(
            entries,
            dedupe,
            backend,
            id,
        ) is Some {
            1int
        } else {
            0int
        }),
        withdrawn(entries, dedupe, backend, id) is Some ==> !known(
            after_lost(entries, dedupe, backend, id),
            dedupe,
            backend,
            id,
        ),
{
    lemma_slot(entries, dedupe, backend, id);
    let i = slot(entries, dedupe, backend, id);
    let out = after_lost(entries, dedupe, backend, id);
    if withdrawn(entries, dedupe, backend, id) is Some {
        assert(out == entries.remove(i));
        lemma_known(out, dedupe, backend, id);
        if known(out, dedupe, backend, id) {
            let k = choose|k: int| 0 <= k < out.len() && claims(#[trigger] out[k], dedupe, backend, id);
            let k0 = if k < i { k } else { k + 1 };
            assert(out[k] == entries[k0]);
            lemma_claim_unique(entries, dedupe, backend, id, k0);
        }
    }
}

/// A sweep splits the table: every entry is either kept or reported lost,
/// never both.
pub proof fn sweep_balances(entries: Seq<PeerInfoView>, now: u64, ttl: u64)
    ensures
        after_sweep(entries, now, ttl).len() + swept(entries, now, ttl).len() == entries.len(),
        forall|k: int|
            0 <= k < after_sweep(entries, now, ttl).len() ==> !is_stale(
                (#[trigger] after_sweep(entries, now, ttl)[k]).last_seen,
                now,
                ttl,
            ),
        forall|k: int|
            0 <= k < swept(entries, now, ttl).len() ==> (#[trigger] swept(entries, now, ttl)[k])
                is PeerLost && is_stale(swept(entries, now, ttl)[k].peer().last_seen, now, ttl),
{
    lemma_partition(entries, fresh_at(now, ttl), stale_at(now, ttl));
    assert forall|k: int| 0 <= k < after_sweep(entries, now, ttl).len() implies !is_stale(
        (#[trigger] after_sweep(entries, now, ttl)[k]).last_seen,
        now,
        ttl,
    ) by {
        entries.lemma_filter_pred(fresh_at(now, ttl), k);
    }
    assert forall|k: int| 0 <= k < swept(entries, now, ttl).len() implies (#[trigger] swept(
        entries,
        now,
        ttl,
    )[k]) is PeerLost && is_stale(swept(entries, now, ttl)[k].peer().last_seen, now, ttl) by {
        entries.lemma_filter_pred(stale_at(now, ttl), k);
    }
}

/// The withdrawal of a backend splits the table: every entry is either
/// kept, without the backend among its contributors, or reported lost.
pub proof fn retirement_balances(entries: Seq<PeerInfoView>, dedupe: bool, backend: BackendId)
    requires
        table_wf(entries, dedupe),
    ensures
        after_retire(entries, backend).len() + orphaned(entries, backend).len() == entries.len(),
        forall|k: int|
            0 <= k < after_retire(entries, backend).len() ==> !(#[trigger] after_retire(
                entries,
                backend,
            )[k]).transports.contains(backend),
    decreases entries.len(),
{
    reveal(Seq::filter);
    let mapped = entries.map_values(stripped(backend));
    let out = after_retire(entries, backend);
    if entries.len() > 0 {
        let head = entries.drop_last();
        let last = entries.last();
        assert(mapped.drop_last() =~= head.map_values(stripped(backend)));
        assert(table_wf(head, dedupe)) by {
            assert forall|i: int| 0 <= i < head.len() implies entry_wf(
                #[trigger] head[i],
                dedupe,
            ) by {
                assert(head[i] == entries[i]);
            }
            assert forall|i: int, j: int| 0 <= i < j < head.len() implies !same_slot(
                #[trigger] head[i],
                #[trigger] head[j],
                dedupe,
            ) by {
                assert(head[i] == entries[i] && head[j] == entries[j]);
            }
        }
        retirement_balances(head, dedupe, backend);
        assert(entry_wf(entries[entries.len() - 1], dedupe));
        lemma_without(last.transports, backend);
        assert(attributed()(stripped(backend)(last)) <==> !only_from(backend)(last));
        let sub = after_retire(head, backend);
        assert forall|k: int| 0 <= k < out.len() implies !(#[trigger] out[k]).transports.contains(
            backend,
        ) by {
            if k < sub.len() {
                assert(out[k] == sub[k]);
            }
        }
    }
}

} // verus!
