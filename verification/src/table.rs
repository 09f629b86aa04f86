//! The merged peer table: one entry per peer that some backend currently
//! reports, kept in the order in which the peers were first announced.

use vstd::prelude::*;
use crate::discovery::{event_views, optional_view, DiscoveryEvent};
use crate::identity::{lists_backend, BackendId, PeerId, PeerInfo, PeerInfoView};
use crate::merge::{
    after_discovered, after_lost, after_retire, after_sweep, announced, as_lost, attributed,
    claims, entry_wf, fresh_at, lemma_slot_is, lemma_without, only_from, orphaned,
    other_than, slot, stale_at, stripped, swept, table_wf, withdrawn, without,
};
use crate::wellformed::{lemma_discovered_wf, lemma_lost_wf, lemma_retire_wf, lemma_sweep_wf};

verus! {

/// The values of a list of entries, in order.
pub open spec fn entry_views(entries: Seq<PeerInfo>) -> Seq<PeerInfoView> {
    entries.map_values(|p: PeerInfo| p@)
}

/// The contributors of an entry once `backend` has withdrawn.
pub fn drop_backend(transports: &Vec<BackendId>, backend: BackendId) -> (r: Vec<BackendId>)
    ensures
        r@ == without(transports@, backend),
{
    let mut out: Vec<BackendId> = Vec::new();
    let mut i: usize = 0;
    proof {
        reveal(Seq::filter);
        assert(transports@.take(0) =~= Seq::<BackendId>::empty());
    }
    while i < transports.len()
        invariant
            i <= transports.len(),
            out@ == without(transports@.take(i as int), backend),
        decreases transports.len() - i,
    {
        proof {
            assert(transports@.take(i + 1) =~= transports@.take(i as int).push(transports@[i as int]));
            transports@.take(i as int).lemma_filter_push(transports@[i as int], other_than(backend));
        }
        if transports[i] != backend {
            out.push(transports[i]);
        }
        i = i + 1;
    }
    assert(transports@.take(transports.len() as int) =~= transports@);
    out
}

/// The merged peer table.
pub struct PeerTable {
    entries: Vec<PeerInfo>,
    dedupe: bool,
}

impl View for PeerTable {
    type V = Seq<PeerInfoView>;

    closed spec fn view(&self) -> Seq<PeerInfoView> {
        entry_views(self.entries@)
    }
}

impl PeerTable {
    /// Whether sightings of one identity by different transports are merged
    /// into one entry.
    pub closed spec fn merges_transports(&self) -> bool {
        self.dedupe
    }

    /// The table's invariant.
    pub open spec fn wf(&self) -> bool {
        table_wf(self@, self.merges_transports())
    }

    /// An empty table.
    pub fn new(dedupe: bool) -> (r: PeerTable)
        ensures
            r.wf(),
            r@ == Seq::<PeerInfoView>::empty(),
            r.merges_transports() == dedupe,
    {
        let r = PeerTable { entries: Vec::new(), dedupe };
        assert(r@ =~= Seq::<PeerInfoView>::empty());
        r
    }

    /// Whether sightings of one identity by different transports are merged.
    pub fn dedupe(&self) -> (r: bool)
        ensures
            r == self.merges_transports(),
    {
        self.dedupe
    }

    /// Number of peers in the table.
    pub fn len(&self) -> (r: usize)
        ensures
            r == self@.len(),
    {
        self.entries.len()
    }

    /// Whether no peer is in the table.
    pub fn is_empty(&self) -> (r: bool)
        ensures
            r == (self@.len() == 0),
    {
        self.entries.len() == 0
    }

    /// Index of the entry that a sighting of `id` by `backend` belongs to,
    /// or the length of the table when there is none.
    pub fn locate(&self, backend: BackendId, id: &PeerId) -> (i: usize)
        ensures
            i == slot(self@, self.merges_transports(), backend, id@),
            i <= self@.len(),
    {
        let mut i: usize = 0;
        while i < self.entries.len()
            invariant
                i <= self.entries.len(),
                forall|k: int|
                    0 <= k < i ==> !claims(#[trigger] self@[k], self.dedupe, backend, id@),
            decreases self.entries.len() - i,
        {
            let e = &self.entries[i];
            if e.id == *id && (self.dedupe || lists_backend(&e.transports, backend)) {
                proof {
                    lemma_slot_is(self@, self.dedupe, backend, id@, i as int);
                }
                return i;
            }
            i = i + 1;
        }
        proof {
            lemma_slot_is(self@, self.dedupe, backend, id@, i as int);
        }
        i
    }

    /// Merges a sighting of `sighting.id` that `backend` reported at `now`.
    /// A peer that is not in the table is entered and announced; one that is
    /// has its entry refreshed, and nothing is emitted.
    pub fn observe_discovered(&mut self, backend: BackendId, sighting: &PeerInfo, now: u64) -> (r:
        Option<DiscoveryEvent>)
        requires
            old(self).wf(),
        ensures
            final(self).wf(),
            final(self).merges_transports() == old(self).merges_transports(),
            final(self)@ == after_discovered(
                old(self)@,
                old(self).merges_transports(),
                backend,
                sighting@.id,
                sighting@.signal,
                now,
            ),
            optional_view(r) == announced(
                old(self)@,
                old(self).merges_transports(),
                backend,
                sighting@.id,
                sighting@.signal,
                now,
            ),
    {
        let i = self.locate(backend, &sighting.id);
        proof {
            lemma_discovered_wf(self@, self.dedupe, backend, sighting@.id, sighting@.signal, now);
        }
        let ghost before = self@;
        if i < self.entries.len() {
            self.entries[i].last_seen = now;
            self.entries[i].signal = sighting.signal;
            if !lists_backend(&self.entries[i].transports, backend) {
                self.entries[i].transports.push(backend);
            }
            assert(self@ =~= after_discovered(
                before,
                self.dedupe,
                backend,
                sighting@.id,
                sighting@.signal,
                now,
            ));
            None
        } else {
            let mut transports: Vec<BackendId> = Vec::new();
            transports.push(backend);
            assert(transports@ =~= seq![backend]);
            let fresh = PeerInfo {
                id: sighting.id.clone(),
                transports,
                last_seen: now,
                signal: sighting.signal,
            };
            let event = DiscoveryEvent::PeerDiscovered(fresh.duplicate());
            self.entries.push(fresh);
            assert(self@ =~= after_discovered(
                before,
                self.dedupe,
                backend,
                sighting@.id,
                sighting@.signal,
                now,
            ));
            Some(event)
        }
    }

    /// Merges the loss of `peer.id` that `backend` reported. The backend is
    /// taken off the entry; when it was the last contributor the entry is
    /// removed and the loss of the peer is emitted.
    pub fn observe_lost(&mut self, backend: BackendId, peer: &PeerInfo) -> (r: Option<
        DiscoveryEvent,
    >)
        requires
            old(self).wf(),
        ensures
            final(self).wf(),
            final(self).merges_transports() == old(self).merges_transports(),
            final(self)@ == after_lost(
                old(self)@,
                old(self).merges_transports(),
                backend,
                peer@.id,
            ),
            optional_view(r) == withdrawn(
                old(self)@,
                old(self).merges_transports(),
                backend,
                peer@.id,
            ),
    {
        let i = self.locate(backend, &peer.id);
        proof {
            lemma_lost_wf(self@, self.dedupe, backend, peer@.id);
        }
        let ghost before = self@;
        if i < self.entries.len() && lists_backend(&self.entries[i].transports, backend) {
            let rest = drop_backend(&self.entries[i].transports, backend);
            if rest.len() == 0 {
                let gone = self.entries.remove(i);
                assert(self@ =~= before.remove(i as int));
                Some(DiscoveryEvent::PeerLost(gone))
            } else {
                self.entries[i].transports = rest;
                assert(self@ =~= after_lost(before, self.dedupe, backend, peer@.id));
                None
            }
        } else {
            None
        }
    }

    /// Evicts every entry that is stale at `now` under a freshness window of
    /// `ttl` seconds, and emits one loss for each, in table order.
    pub fn sweep(&mut self, now: u64, ttl: u64) -> (r: Vec<DiscoveryEvent>)
        requires
            old(self).wf(),
        ensures
            final(self).wf(),
            final(self).merges_transports() == old(self).merges_transports(),
            final(self)@ == after_sweep(old(self)@, now, ttl),
            event_views(r@) == swept(old(self)@, now, ttl),
    {
        let ghost before = self@;
        let ghost mut done: int = 0;
        let mut lost: Vec<DiscoveryEvent> = Vec::new();
        let mut i: usize = 0;
        proof {
            reveal(Seq::filter);
            lemma_sweep_wf(before, self.dedupe, now, ttl);
            assert(before.take(0) =~= Seq::<PeerInfoView>::empty());
            assert(before.skip(0) =~= before);
            assert(self@ =~= after_sweep(before.take(0), now, ttl) + before.skip(0));
            assert(event_views(lost@) =~= swept(before.take(0), now, ttl));
        }
        while i < self.entries.len()
            invariant
                0 <= done <= before.len(),
                i <= self.entries.len(),
                i == after_sweep(before.take(done), now, ttl).len(),
                self@ == after_sweep(before.take(done), now, ttl) + before.skip(done),
                event_views(lost@) == swept(before.take(done), now, ttl),
                self.dedupe == old(self).dedupe,
            decreases before.len() - done,
        {
            proof {
                assert(self@[i as int] == before.skip(done)[0]);
                assert(before.take(done + 1) =~= before.take(done).push(before[done]));
                before.take(done).lemma_filter_push(before[done], fresh_at(now, ttl));
                before.take(done).lemma_filter_push(before[done], stale_at(now, ttl));
            }
            let ghost prior = self@;
            let ghost prior_lost = event_views(lost@);
            if self.entries[i].expired(now, ttl) {
                let gone = self.entries.remove(i);
                lost.push(DiscoveryEvent::PeerLost(gone));
                proof {
                    assert(self@ =~= prior.remove(i as int));
                    assert(event_views(lost@) =~= prior_lost.push(as_lost()(before[done])));
                    assert(self@ =~= after_sweep(before.take(done + 1), now, ttl) + before.skip(
                        done + 1,
                    ));
                    assert(event_views(lost@) =~= swept(before.take(done + 1), now, ttl));
                    done = done + 1;
                }
            } else {
                i = i + 1;
                proof {
                    assert(self@ =~= after_sweep(before.take(done + 1), now, ttl) + before.skip(
                        done + 1,
                    ));
                    done = done + 1;
                }
            }
        }
        proof {
            assert(done == before.len()) by {
                assert(self@.len() == i + before.skip(done).len());
            }
            assert(before.take(done) =~= before);
            assert(self@ =~= after_sweep(before, now, ttl));
        }
        lost
    }

    /// Takes `backend` off every entry. Entries it was the only contributor
    /// of are removed, and one loss is emitted for each, in table order.
    pub fn retire(&mut self, backend: BackendId) -> (r: Vec<DiscoveryEvent>)
        requires
            old(self).wf(),
        ensures
            final(self).wf(),
            final(self).merges_transports() == old(self).merges_transports(),
            final(self)@ == after_retire(old(self)@, backend),
            event_views(r@) == orphaned(old(self)@, backend),
    {
        let ghost before = self@;
        let ghost mut done: int = 0;
        let mut lost: Vec<DiscoveryEvent> = Vec::new();
        let mut i: usize = 0;
        proof {
            reveal(Seq::filter);
            lemma_retire_wf(before, self.dedupe, backend);
            assert(before.take(0) =~= Seq::<PeerInfoView>::empty());
            assert(before.take(0).map_values(stripped(backend)) =~= Seq::<PeerInfoView>::empty());
            assert(before.skip(0) =~= before);
            assert(self@ =~= after_retire(before.take(0), backend) + before.skip(0));
            assert(event_views(lost@) =~= orphaned(before.take(0), backend));
        }
        while i < self.entries.len()
            invariant
                0 <= done <= before.len(),
                i <= self.entries.len(),
                i == after_retire(before.take(done), backend).len(),
                self@ == after_retire(before.take(done), backend) + before.skip(done),
                event_views(lost@) == orphaned(before.take(done), backend),
                self.dedupe == old(self).dedupe,
                table_wf(before, self.dedupe),
            decreases before.len() - done,
        {
            let ghost e = before[done];
            proof {
                assert(self@[i as int] == before.skip(done)[0]);
                assert(entry_wf(e, self.dedupe));
                assert(before.take(done + 1) =~= before.take(done).push(e));
                assert(before.take(done + 1).map_values(stripped(backend)) =~= before.take(
                    done,
                ).map_values(stripped(backend)).push(stripped(backend)(e)));
                before.take(done).map_values(stripped(backend)).lemma_filter_push(
                    stripped(backend)(e),
                    attributed(),
                );
                before.take(done).lemma_filter_push(e, only_from(backend));
                lemma_without(e.transports, backend);
            }
            let ghost prior = self@;
            let ghost prior_lost = event_views(lost@);
            if lists_backend(&self.entries[i].transports, backend) {
                let rest = drop_backend(&self.entries[i].transports, backend);
                if rest.len() == 0 {
                    let gone = self.entries.remove(i);
                    lost.push(DiscoveryEvent::PeerLost(gone));
                    proof {
                        assert(self@ =~= prior.remove(i as int));
                        assert(event_views(lost@) =~= prior_lost.push(as_lost()(e)));
                        assert(self@ =~= after_retire(before.take(done + 1), backend) + before.skip(
                            done + 1,
                        ));
                        assert(event_views(lost@) =~= orphaned(before.take(done + 1), backend));
                    }
                } else {
                    self.entries[i].transports = rest;
                    i = i + 1;
                    proof {
                        assert(self@ =~= prior.update(i - 1, stripped(backend)(e)));
                        assert(self@ =~= after_retire(before.take(done + 1), backend) + before.skip(
                            done + 1,
                        ));
                    }
                }
            } else {
                i = i + 1;
                proof {
                    assert(stripped(backend)(e) == e);
                    assert(self@ =~= after_retire(before.take(done + 1), backend) + before.skip(
                        done + 1,
                    ));
                }
            }
            proof {
                done = done + 1;
            }
        }
        proof {
            assert(done == before.len()) by {
                assert(self@.len() == i + before.skip(done).len());
            }
            assert(before.take(done) =~= before);
            assert(self@ =~= after_retire(before, backend));
        }
        lost
    }

    /// Empties the table and emits one loss for every entry it held, in
    /// table order.
    pub fn drain(&mut self) -> (r: Vec<DiscoveryEvent>)
        ensures
            final(self).wf(),
            final(self).merges_transports() == old(self).merges_transports(),
            final(self)@ == Seq::<PeerInfoView>::empty(),
            event_views(r@) == old(self)@.map_values(as_lost()),
    {
        let mut lost: Vec<DiscoveryEvent> = Vec::new();
        let mut i: usize = 0;
        while i < self.entries.len()
            invariant
                i <= self.entries.len(),
                *self == *old(self),
                event_views(lost@) == self@.take(i as int).map_values(as_lost()),
            decreases self.entries.len() - i,
        {
            let ghost prior = event_views(lost@);
            let gone = self.entries[i].duplicate();
            lost.push(DiscoveryEvent::PeerLost(gone));
            assert(event_views(lost@) =~= prior.push(as_lost()(self@[i as int])));
            assert(self@.take(i + 1) =~= self@.take(i as int).push(self@[i as int]));
            assert(self@.take(i + 1).map_values(as_lost()) =~= prior.push(as_lost()(self@[i as int])));
            i = i + 1;
        }
        assert(self@.take(self.entries.len() as int) =~= self@);
        self.entries.clear();
        assert(self@ =~= Seq::<PeerInfoView>::empty());
        lost
    }

    /// A copy of the table's entries, in table order. Later changes of the
    /// table do not show in it.
    pub fn snapshot(&self) -> (r: Vec<PeerInfo>)
        ensures
            entry_views(r@) == self@,
    {
        let mut out: Vec<PeerInfo> = Vec::new();
        let mut i: usize = 0;
        while i < self.entries.len()
            invariant
                i <= self.entries.len(),
                entry_views(out@) == self@.take(i as int),
            decreases self.entries.len() - i,
        {
            let ghost prior = entry_views(out@);
            let copy = self.entries[i].duplicate();
            out.push(copy);
            assert(entry_views(out@) =~= prior.push(self@[i as int]));
            assert(self@.take(i + 1) =~= self@.take(i as int).push(self@[i as int]));
            i = i + 1;
        }
        assert(self@.take(self.entries.len() as int) =~= self@);
        out
    }
}

} // verus!
