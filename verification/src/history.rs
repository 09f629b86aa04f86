//! The merged stream over a whole history of inputs: however sightings,
//! losses, sweeps and withdrawals follow one another, the announcements of
//! a peer and its losses keep in step with the table.

use vstd::prelude::*;
use crate::counting::{
    lemma_occurrences_add, lemma_occurrences_map, lemma_occurrences_none, lemma_occurrences_push,
    lemma_occurrences_remove, lemma_occurrences_split, lemma_occurrences_update, occurrences,
};
use crate::discovery::{at_most_one, DiscoveryEventView};
use crate::identity::{BackendId, PeerInfoView};
use crate::merge::{
    after_discovered, after_lost, after_retire, after_sweep, announced, as_lost, attributed,
    entry_wf, fresh_at, lemma_slot, lemma_without, only_from, orphaned, same_slot, sighted, slot,
    stale_at, stripped, swept, table_wf, withdrawn,
};
use crate::wellformed::{lemma_discovered_wf, lemma_lost_wf, lemma_retire_wf, lemma_sweep_wf};

verus! {

/// What can reach the merge engine.
pub enum Input {
    /// A backend sighted a peer.
    Sighted { backend: BackendId, id: Seq<char>, signal: Option<i16>, at: u64 },
    /// A backend reported the loss of a peer.
    Lost { backend: BackendId, id: Seq<char> },
    /// The engine's clock asked for a sweep.
    Sweep { now: u64 },
    /// A backend withdrew: it stopped, or its event sequence ended.
    Withdrawn { backend: BackendId },
}

/// The table after one input.
pub open spec fn table_after(
    entries: Seq<PeerInfoView>,
    dedupe: bool,
    ttl: u64,
    input: Input,
) -> Seq<PeerInfoView> {
    match input {
        Input::Sighted { backend, id, signal, at } => after_discovered(
            entries,
            dedupe,
            backend,
            id,
            signal,
            at,
        ),
        Input::Lost { backend, id } => after_lost(entries, dedupe, backend, id),
        Input::Sweep { now } => after_sweep(entries, now, ttl),
        Input::Withdrawn { backend } => after_retire(entries, backend),
    }
}

/// What one input emits.
pub open spec fn events_of(
    entries: Seq<PeerInfoView>,
    dedupe: bool,
    ttl: u64,
    input: Input,
) -> Seq<DiscoveryEventView> {
    match input {
        Input::Sighted { backend, id, signal, at } => at_most_one(
            announced(entries, dedupe, backend, id, signal, at),
        ),
        Input::Lost { backend, id } => at_most_one(withdrawn(entries, dedupe, backend, id)),
        Input::Sweep { now } => swept(entries, now, ttl),
        Input::Withdrawn { backend } => orphaned(entries, backend),
    }
}

/// The table after a history of inputs.
pub open spec fn table_after_all(
    entries: Seq<PeerInfoView>,
    dedupe: bool,
    ttl: u64,
    inputs: Seq<Input>,
) -> Seq<PeerInfoView>
    decreases inputs.len(),
{
    if inputs.len() == 0 {
        entries
    } else {
        table_after(
            table_after_all(entries, dedupe, ttl, inputs.drop_last()),
            dedupe,
            ttl,
            inputs.last(),
        )
    }
}

/// Everything a history of inputs emits, in order.
pub open spec fn events_of_all(
    entries: Seq<PeerInfoView>,
    dedupe: bool,
    ttl: u64,
    inputs: Seq<Input>,
) -> Seq<DiscoveryEventView>
    decreases inputs.len(),
{
    if inputs.len() == 0 {
        Seq::empty()
    } else {
        events_of_all(entries, dedupe, ttl, inputs.drop_last()) + events_of(
            table_after_all(entries, dedupe, ttl, inputs.drop_last()),
            dedupe,
            ttl,
            inputs.last(),
        )
    }
}

/// The predicate "is an entry of peer `id`".
pub open spec fn held_as(id: Seq<char>) -> spec_fn(PeerInfoView) -> bool {
    |e: PeerInfoView| e.id == id
}

/// The predicate "announces peer `id`".
pub open spec fn announces(id: Seq<char>) -> spec_fn(DiscoveryEventView) -> bool {
    |e: DiscoveryEventView| e is PeerDiscovered && e.peer().id == id
}

/// The predicate "reports the loss of peer `id`".
pub open spec fn loses(id: Seq<char>) -> spec_fn(DiscoveryEventView) -> bool {
    |e: DiscoveryEventView| e is PeerLost && e.peer().id == id
}

/// The predicate that nothing satisfies.
pub open spec fn never() -> spec_fn(PeerInfoView) -> bool {
    |e: PeerInfoView| false
}

/// Number of entries the table holds for peer `id`.
pub open spec fn holding(entries: Seq<PeerInfoView>, id: Seq<char>) -> nat {
    occurrences(entries, held_as(id))
}

/// Number of announcements of peer `id` among the events.
pub open spec fn announcements(events: Seq<DiscoveryEventView>, id: Seq<char>) -> nat {
    occurrences(events, announces(id))
}

/// Number of losses of peer `id` among the events.
pub open spec fn losses(events: Seq<DiscoveryEventView>, id: Seq<char>) -> nat {
    occurrences(events, loses(id))
}

/// Every input keeps the table well formed.
pub proof fn step_keeps_table_wf(entries: Seq<PeerInfoView>, dedupe: bool, ttl: u64, input: Input)
    requires
        table_wf(entries, dedupe),
    ensures
        table_wf(table_after(entries, dedupe, ttl, input), dedupe),
{
    match input {
        Input::Sighted { backend, id, signal, at } => {
            lemma_discovered_wf(entries, dedupe, backend, id, signal, at);
        },
        Input::Lost { backend, id } => {
            lemma_lost_wf(entries, dedupe, backend, id);
        },
        Input::Sweep { now } => {
            lemma_sweep_wf(entries, dedupe, now, ttl);
        },
        Input::Withdrawn { backend } => {
            lemma_retire_wf(entries, dedupe, backend);
        },
    }
}

/// Every history keeps the table well formed.
pub proof fn history_keeps_table_wf(
    entries: Seq<PeerInfoView>,
    dedupe: bool,
    ttl: u64,
    inputs: Seq<Input>,
)
    requires
        table_wf(entries, dedupe),
    ensures
        table_wf(table_after_all(entries, dedupe, ttl, inputs), dedupe),
    decreases inputs.len(),
{
    if inputs.len() > 0 {
        history_keeps_table_wf(entries, dedupe, ttl, inputs.drop_last());
        step_keeps_table_wf(
            table_after_all(entries, dedupe, ttl, inputs.drop_last()),
            dedupe,
            ttl,
            inputs.last(),
        );
    }
}

/// The counts of a step that emits at most one event.
pub proof fn lemma_at_most_one(event: Option<DiscoveryEventView>, id: Seq<char>)
    ensures
        announcements(at_most_one(event), id) == (if event is Some && announces(id)(event->0) {
            1nat
        } else {
            0nat
        }),
        losses(at_most_one(event), id) == (if event is Some && loses(id)(event->0) {
            1nat
        } else {
            0nat
        }),
{
    let none = Seq::<DiscoveryEventView>::empty();
    assert(occurrences(none, announces(id)) == 0);
    assert(occurrences(none, loses(id)) == 0);
    match event {
        Some(e) => {
            assert(at_most_one(event) =~= none.push(e));
            lemma_occurrences_push(none, e, announces(id));
            lemma_occurrences_push(none, e, loses(id));
        },
        None => {},
    }
}

/// A sweep announces nothing and reports as many losses of a peer as it
/// evicts entries of that peer.
pub proof fn lemma_sweep_counts(entries: Seq<PeerInfoView>, now: u64, ttl: u64, id: Seq<char>)
    ensures
        announcements(swept(entries, now, ttl), id) == 0,
        holding(after_sweep(entries, now, ttl), id) + losses(swept(entries, now, ttl), id)
            == holding(entries, id),
{
    let stale = entries.filter(stale_at(now, ttl));
    lemma_occurrences_map(stale, as_lost(), loses(id), held_as(id));
    lemma_occurrences_map(stale, as_lost(), announces(id), never());
    assert forall|k: int| 0 <= k < stale.len() implies !never()(#[trigger] stale[k]) by {}
    lemma_occurrences_none(stale, never());
    lemma_occurrences_split(entries, fresh_at(now, ttl), stale_at(now, ttl), held_as(id));
}

/// The withdrawal of a backend announces nothing and reports as many
/// losses of a peer as it removes entries of that peer.
pub proof fn lemma_retire_counts(
    entries: Seq<PeerInfoView>,
    dedupe: bool,
    backend: BackendId,
    id: Seq<char>,
)
    requires
        table_wf(entries, dedupe),
    ensures
        announcements(orphaned(entries, backend), id) == 0,
        holding(after_retire(entries, backend), id) + losses(orphaned(entries, backend), id)
            == holding(entries, id),
{
    let alone = entries.filter(only_from(backend));
    lemma_occurrences_map(alone, as_lost(), loses(id), held_as(id));
    lemma_occurrences_map(alone, as_lost(), announces(id), never());
    assert forall|k: int| 0 <= k < alone.len() implies !never()(#[trigger] alone[k]) by {}
    lemma_occurrences_none(alone, never());
    lemma_retire_holding(entries, dedupe, backend, id);
}

/// The entries that a withdrawal keeps and the ones it removes make up the
/// table.
pub proof fn lemma_retire_holding(
    entries: Seq<PeerInfoView>,
    dedupe: bool,
    backend: BackendId,
    id: Seq<char>,
)
    requires
        forall|i: int| 0 <= i < entries.len() ==> entry_wf(#[trigger] entries[i], dedupe),
    ensures
        holding(after_retire(entries, backend), id) + holding(
            entries.filter(only_from(backend)),
            id,
        ) == holding(entries, id),
    decreases entries.len(),
{
    reveal(Seq::filter);
    if entries.len() > 0 {
        let head = entries.drop_last();
        let last = entries.last();
        let mapped = entries.map_values(stripped(backend));
        assert(mapped.drop_last() =~= head.map_values(stripped(backend)));
        assert forall|i: int| 0 <= i < head.len() implies entry_wf(#[trigger] head[i], dedupe) by {
            assert(head[i] == entries[i]);
        }
        lemma_retire_holding(head, dedupe, backend, id);
        assert(entry_wf(entries[entries.len() - 1], dedupe));
        lemma_without(last.transports, backend);
        assert(attributed()(stripped(backend)(last)) <==> !only_from(backend)(last));
        if only_from(backend)(last) {
            lemma_occurrences_push(head.filter(only_from(backend)), last, held_as(id));
        } else {
            lemma_occurrences_push(
                after_retire(head, backend),
                stripped(backend)(last),
                held_as(id),
            );
        }
    }
}

/// One input changes the number of entries held for a peer by the number
/// of its announcements less the number of its losses.
pub proof fn step_keeps_in_step(
    entries: Seq<PeerInfoView>,
    dedupe: bool,
    ttl: u64,
    input: Input,
    id: Seq<char>,
)
    requires
        table_wf(entries, dedupe),
    ensures
        holding(table_after(entries, dedupe, ttl, input), id) + losses(
            events_of(entries, dedupe, ttl, input),
            id,
        ) == holding(entries, id) + announcements(events_of(entries, dedupe, ttl, input), id),
{
    match input {
        Input::Sighted { backend, id: seen, signal, at } => {
            lemma_slot(entries, dedupe, backend, seen);
            lemma_at_most_one(announced(entries, dedupe, backend, seen, signal, at), id);
            let i = slot(entries, dedupe, backend, seen);
            if i < entries.len() {
                lemma_occurrences_update(
                    entries,
                    i,
                    crate::merge::refreshed(entries[i], backend, signal, at),
                    held_as(id),
                );
            } else {
                lemma_occurrences_push(entries, sighted(backend, seen, signal, at), held_as(id));
            }
        },
        Input::Lost { backend, id: gone } => {
            lemma_slot(entries, dedupe, backend, gone);
            lemma_at_most_one(withdrawn(entries, dedupe, backend, gone), id);
            let i = slot(entries, dedupe, backend, gone);
            if i < entries.len() && entries[i].transports.contains(backend) {
                if crate::merge::sole_contributor(entries[i], backend) {
                    lemma_occurrences_remove(entries, i, held_as(id));
                } else {
                    lemma_occurrences_update(
                        entries,
                        i,
                        crate::merge::with_transports(
                            entries[i],
                            crate::merge::without(entries[i].transports, backend),
                        ),
                        held_as(id),
                    );
                }
            }
        },
        Input::Sweep { now } => {
            lemma_sweep_counts(entries, now, ttl, id);
        },
        Input::Withdrawn { backend } => {
            lemma_retire_counts(entries, dedupe, backend, id);
        },
    }
}

/// Over any history, the entries held for a peer at the end, plus the
/// losses of the peer that were emitted, are the entries held at the
/// beginning plus the announcements of the peer that were emitted. An
/// entry exists exactly as long as an announcement has not been followed
/// by a loss.
pub proof fn history_keeps_in_step(
    entries: Seq<PeerInfoView>,
    dedupe: bool,
    ttl: u64,
    inputs: Seq<Input>,
    id: Seq<char>,
)
    requires
        table_wf(entries, dedupe),
    ensures
        holding(table_after_all(entries, dedupe, ttl, inputs), id) + losses(
            events_of_all(entries, dedupe, ttl, inputs),
            id,
        ) == holding(entries, id) + announcements(
            events_of_all(entries, dedupe, ttl, inputs),
            id,
        ),
    decreases inputs.len(),
{
    if inputs.len() == 0 {
        assert(occurrences(Seq::<DiscoveryEventView>::empty(), announces(id)) == 0);
        assert(occurrences(Seq::<DiscoveryEventView>::empty(), loses(id)) == 0);
    } else {
        let earlier = inputs.drop_last();
        let table = table_after_all(entries, dedupe, ttl, earlier);
        let before = events_of_all(entries, dedupe, ttl, earlier);
        let now = events_of(table, dedupe, ttl, inputs.last());
        history_keeps_in_step(entries, dedupe, ttl, earlier, id);
        history_keeps_table_wf(entries, dedupe, ttl, earlier);
        step_keeps_in_step(table, dedupe, ttl, inputs.last(), id);
        lemma_occurrences_add(before, now, announces(id));
        lemma_occurrences_add(before, now, loses(id));
    }
}

/// With cross-transport merging a well-formed table holds at most one
/// entry for a peer.
pub proof fn peer_is_held_once(entries: Seq<PeerInfoView>, id: Seq<char>)
    requires
        table_wf(entries, true),
    ensures
        holding(entries, id) <= 1,
    decreases entries.len(),
{
    if entries.len() > 0 {
        let head = entries.drop_last();
        assert(table_wf(head, true)) by {
            assert forall|i: int| 0 <= i < head.len() implies entry_wf(#[trigger] head[i], true) by {
                assert(head[i] == entries[i]);
            }
            assert forall|i: int, j: int| 0 <= i < j < head.len() implies !same_slot(
                #[trigger] head[i],
                #[trigger] head[j],
                true,
            ) by {
                assert(head[i] == entries[i] && head[j] == entries[j]);
            }
        }
        peer_is_held_once(head, id);
        if held_as(id)(entries.last()) {
            assert forall|k: int| 0 <= k < head.len() implies !held_as(id)(#[trigger] head[k]) by {
                assert(head[k] == entries[k]);
                assert(!same_slot(entries[k], entries[entries.len() - 1], true));
            }
            lemma_occurrences_none(head, held_as(id));
        }
    }
}

/// With cross-transport merging, starting from an empty table, at every
/// moment of every history a peer has been announced as often as it has
/// been lost, or once more: announcements and losses of a peer alternate,
/// beginning with an announcement, and the peer is in the table exactly
/// when the last of them was an announcement.
pub proof fn announcements_and_losses_alternate(ttl: u64, inputs: Seq<Input>, id: Seq<char>)
    ensures
        ({
            let events = events_of_all(Seq::empty(), true, ttl, inputs);
            let table = table_after_all(Seq::empty(), true, ttl, inputs);
            &&& losses(events, id) <= announcements(events, id) <= losses(events, id) + 1
            &&& holding(table, id) == announcements(events, id) - losses(events, id)
        }),
{
    let empty = Seq::<PeerInfoView>::empty();
    assert(table_wf(empty, true));
    assert(holding(empty, id) == 0);
    history_keeps_in_step(empty, true, ttl, inputs, id);
    history_keeps_table_wf(empty, true, ttl, inputs);
    peer_is_held_once(table_after_all(empty, true, ttl, inputs), id);
}

} // verus!
