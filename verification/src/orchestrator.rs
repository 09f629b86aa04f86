//! The orchestrator: the backends' records, the merged peer table, and the
//! decisions that drive both.
//!
//! The orchestrator performs no transport operation itself. Its driver
//! carries out the commands it hands out and feeds it the backends' events
//! and the time. What the orchestrator emits it returns to the driver and
//! puts into the mailbox of every subscriber.

use vstd::prelude::*;
use crate::attribution::{
    contributors_among, lemma_contributors_widen, lemma_discovered_contributors,
    lemma_lost_contributors, lemma_retire_contributors, lemma_sweep_contributors,
};
use crate::backend::{BackendRecord, Capabilities};
use crate::config::Config;
use crate::discovery::{
    at_most_one, event_views, optional_view, DiscoveryEvent, DiscoveryEventView,
};
use crate::error::DiscoveryError;
use crate::hub::{delivered, lemma_delivered_nothing, EventHub, SubscriberId};
use crate::identity::{BackendId, PeerInfo, PeerInfoView};
use crate::lifecycle::{LifecycleEvent, LifecycleState};
use crate::merge::{after_retire, after_sweep, as_lost, emitted, merged, orphaned, swept, table_wf};
use crate::protocol::{
    as_failure, awaiting, command_for, conclude_event, concluded, error_in, failed, first_failure,
    judge, pending, requested, verdict, BackendFailure, BackendFailureReport, BackendOutcome,
    LifecycleCommand, Operation,
};
use crate::table::{entry_views, PeerTable};

verus! {

/// Every record sits at the index of its id and runs only operations that
/// its backend declares.
pub open spec fn records_wf(records: Seq<BackendRecord>) -> bool {
    forall|i: int|
        0 <= i < records.len() ==> (#[trigger] records[i]).id == i && records[i].declared.covers(
            records[i].roles,
        )
}

/// The backends that produce sightings.
pub open spec fn scanning_set(records: Seq<BackendRecord>) -> Set<BackendId> {
    Set::new(|t: BackendId| t < records.len() && records[t as int].scanning())
}

/// Rewriting the records' lifecycle keeps them well formed, and keeps the
/// scanning backends where the rewrite lets them scan on.
pub proof fn lemma_rewritten(
    records: Seq<BackendRecord>,
    rewrite: spec_fn(BackendRecord) -> BackendRecord,
)
    requires
        records_wf(records),
        forall|r: BackendRecord|
            (#[trigger] rewrite(r)).id == r.id && rewrite(r).declared == r.declared && rewrite(
                r,
            ).roles == r.roles,
    ensures
        records_wf(records.map_values(rewrite)),
        (forall|r: BackendRecord| r.scanning() ==> (#[trigger] rewrite(r)).scanning())
            ==> scanning_set(records).subset_of(scanning_set(records.map_values(rewrite))),
{
    let out = records.map_values(rewrite);
    assert forall|i: int| 0 <= i < out.len() implies (#[trigger] out[i]).id == i
        && out[i].declared.covers(out[i].roles) by {
        assert(out[i] == rewrite(records[i]));
    }
    if forall|r: BackendRecord| r.scanning() ==> (#[trigger] rewrite(r)).scanning() {
        assert forall|t: BackendId| scanning_set(records).contains(t) implies scanning_set(
            out,
        ).contains(t) by {
            assert(out[t as int] == rewrite(records[t as int]));
        }
    }
}

/// What a stop asks of the driver, and what it emits at once.
pub struct StopPlan {
    /// One command for every backend that was running.
    pub commands: Vec<LifecycleCommand>,
    /// The loss of every peer that was in the table.
    pub events: Vec<DiscoveryEvent>,
}

/// Owns the records of the registered backends, the merged peer table and
/// the subscribers' mailboxes.
pub struct Orchestrator {
    config: Config,
    backends: Vec<BackendRecord>,
    table: PeerTable,
    hub: EventHub,
}

impl Orchestrator {
    /// The options the orchestrator was made with.
    pub closed spec fn options(&self) -> Config {
        self.config
    }

    /// The records of the registered backends, in the order of registration.
    pub closed spec fn records(&self) -> Seq<BackendRecord> {
        self.backends@
    }

    /// The merged peer table.
    pub closed spec fn peers(&self) -> Seq<PeerInfoView> {
        self.table@
    }

    /// For every subscriber, the merged events that wait for it.
    pub closed spec fn mailboxes(&self) -> Seq<Seq<DiscoveryEventView>> {
        self.hub@
    }

    /// For every subscriber, the failures of backends that wait for it.
    pub closed spec fn notices(&self) -> Seq<Seq<BackendFailure>> {
        self.hub.failures()
    }

    /// Whether the merged stream has ended: a stop was completed.
    pub closed spec fn stopped(&self) -> bool {
        self.hub.ended()
    }

    /// Whether the subscribers' mailboxes are what they were in `before`.
    pub open spec fn same_mail(&self, before: &Orchestrator) -> bool {
        &&& self.mailboxes() == before.mailboxes()
        &&& self.notices() == before.notices()
        &&& self.stopped() == before.stopped()
    }

    /// Whether options, records and peers are what they were in `before`.
    pub open spec fn same_state(&self, before: &Orchestrator) -> bool {
        &&& self.options() == before.options()
        &&& self.records() == before.records()
        &&& self.peers() == before.peers()
    }

    /// The table is the one the options ask for.
    pub closed spec fn consistent(&self) -> bool {
        &&& self.table.wf()
        &&& self.table.merges_transports() == self.config.dedupe_window
    }

    /// The orchestrator's invariant: the table is well formed, the records
    /// are, and every contributor of an entry is a backend that is scanning.
    pub open spec fn wf(&self) -> bool {
        &&& self.consistent()
        &&& table_wf(self.peers(), self.options().dedupe_window)
        &&& records_wf(self.records())
        &&& contributors_among(self.peers(), scanning_set(self.records()))
    }

    /// Whether `backend` is registered and its operations are running.
    pub open spec fn runs(&self, backend: BackendId) -> bool {
        backend < self.records().len() && self.records()[backend as int].state is Scanning
    }

    /// Whether events of `backend` are merged: it is registered and
    /// scanning.
    pub open spec fn accepts(&self, backend: BackendId) -> bool {
        backend < self.records().len() && self.records()[backend as int].scanning()
    }

    /// An orchestrator without backends, without peers and without
    /// subscribers, its merged stream live.
    pub fn new(config: Config) -> (r: Orchestrator)
        ensures
            r.wf(),
            r.options() == config,
            r.records() == Seq::<BackendRecord>::empty(),
            r.peers() == Seq::<PeerInfoView>::empty(),
            r.mailboxes() == Seq::<Seq<DiscoveryEventView>>::empty(),
            r.notices() == Seq::<Seq<BackendFailure>>::empty(),
            !r.stopped(),
    {
        let r = Orchestrator {
            config,
            backends: Vec::new(),
            table: PeerTable::new(config.dedupe_window),
            hub: EventHub::new(),
        };
        assert(r.records() =~= Seq::<BackendRecord>::empty());
        r
    }

    /// The options the orchestrator was made with.
    pub fn config(&self) -> (r: Config)
        ensures
            r == self.options(),
    {
        self.config
    }

    /// Number of registered backends.
    pub fn backend_count(&self) -> (r: usize)
        ensures
            r == self.records().len(),
    {
        self.backends.len()
    }

    /// Number of peers in the merged table.
    pub fn peer_count(&self) -> (r: usize)
        ensures
            r == self.peers().len(),
    {
        self.table.len()
    }

    /// The record of `backend`, if it is registered.
    pub fn record(&self, backend: BackendId) -> (r: Option<BackendRecord>)
        ensures
            r == (if backend < self.records().len() {
                Some(self.records()[backend as int])
            } else {
                None
            }),
    {
        if backend < self.backends.len() {
            Some(self.backends[backend])
        } else {
            None
        }
    }

    /// Registers a backend that declares `declared`, to run the operations
    /// in `roles`. A role that the backend does not declare is refused at
    /// once and nothing is registered. Otherwise the backend gets the next
    /// free id and starts out idle.
    pub fn register_backend(&mut self, declared: Capabilities, roles: Capabilities) -> (r: Result<
        BackendId,
        DiscoveryError,
    >)
        requires
            old(self).wf(),
        ensures
            final(self).wf(),
            final(self).options() == old(self).options(),
            final(self).peers() == old(self).peers(),
            final(self).same_mail(old(self)),
            !declared.covers(roles) ==> r == Err::<BackendId, DiscoveryError>(
                DiscoveryError::CapabilityUnsupported,
            ) && final(self).records() == old(self).records(),
            declared.covers(roles) ==> r == Ok::<BackendId, DiscoveryError>(
                old(self).records().len() as usize,
            ) && final(self).records() == old(self).records().push(
                BackendRecord::registered(old(self).records().len() as usize, declared, roles),
            ),
    {
        if !declared.supports(&roles) {
            return Err(DiscoveryError::CapabilityUnsupported);
        }
        let id = self.backends.len();
        let ghost before = self.backends@;
        self.backends.push(BackendRecord::new(id, declared, roles));
        proof {
            assert forall|t: BackendId| scanning_set(before).contains(t) implies scanning_set(
                self.backends@,
            ).contains(t) by {
                assert(self.backends@[t as int] == before[t as int]);
            }
            lemma_contributors_widen(
                self.table@,
                scanning_set(before),
                scanning_set(self.backends@),
            );
        }
        Ok(id)
    }

    /// Asks `operation` of every backend that is in the state for it and
    /// returns one command for each, in the order of registration.
    fn request(&mut self, operation: Operation) -> (commands: Vec<LifecycleCommand>)
        ensures
            final(self).config == old(self).config,
            final(self).table == old(self).table,
            final(self).hub == old(self).hub,
            final(self).backends@ == old(self).backends@.map_values(requested(operation)),
            commands@ == old(self).backends@.filter(awaiting(operation)).map_values(
                command_for(operation, old(self).config),
            ),
    {
        let ghost before = self.backends@;
        let mut commands: Vec<LifecycleCommand> = Vec::new();
        let (source, event, timeout_ms) = match operation {
            Operation::Start => (
                LifecycleState::Idle,
                LifecycleEvent::StartRequested,
                self.config.backend_start_timeout_ms,
            ),
            Operation::Stop => (
                LifecycleState::Scanning,
                LifecycleEvent::StopRequested,
                self.config.backend_stop_timeout_ms,
            ),
        };
        let mut i: usize = 0;
        proof {
            reveal(Seq::filter);
            assert(before.take(0) =~= Seq::<BackendRecord>::empty());
            assert(commands@ =~= before.take(0).filter(awaiting(operation)).map_values(
                command_for(operation, self.config),
            ));
        }
        while i < self.backends.len()
            invariant
                i <= before.len(),
                self.backends@.len() == before.len(),
                self.config == old(self).config,
                self.table == old(self).table,
                self.hub == old(self).hub,
                source == crate::protocol::source_state(operation),
                event == crate::protocol::request_event(operation),
                timeout_ms == crate::protocol::timeout_of(operation, self.config),
                forall|k: int| 0 <= k < i ==> self.backends@[k] == requested(operation)(before[k]),
                forall|k: int| i <= k < before.len() ==> self.backends@[k] == before[k],
                commands@ == before.take(i as int).filter(awaiting(operation)).map_values(
                    command_for(operation, self.config),
                ),
            decreases before.len() - i,
        {
            let ghost prior = commands@;
            proof {
                assert(before.take(i + 1) =~= before.take(i as int).push(before[i as int]));
                before.take(i as int).lemma_filter_push(before[i as int], awaiting(operation));
            }
            let mut record = self.backends[i];
            if record.state == source {
                commands.push(
                    LifecycleCommand {
                        backend: record.id,
                        operation,
                        scan: record.roles.can_scan,
                        broadcast: record.roles.can_advertise,
                        timeout_ms,
                    },
                );
                proof {
                    assert(commands@ =~= before.take(i + 1).filter(awaiting(operation)).map_values(
                        command_for(operation, self.config),
                    ));
                }
            }
            record.apply(event, None);
            self.backends[i] = record;
            i = i + 1;
        }
        proof {
            assert(before.take(before.len() as int) =~= before);
            assert(self.backends@ =~= before.map_values(requested(operation)));
        }
        commands
    }

    /// Judges every attempt of `operation` that is under way by what the
    /// driver reported and returns one line per backend, in the order of
    /// registration.
    fn conclude(&mut self, operation: Operation, outcomes: &Vec<BackendOutcome>) -> (report:
        BackendFailureReport)
        ensures
            final(self).config == old(self).config,
            final(self).table == old(self).table,
            final(self).hub == old(self).hub,
            final(self).backends@ == old(self).backends@.map_values(
                concluded(operation, outcomes@),
            ),
            report.entries@ == old(self).backends@.filter(pending(operation)).map_values(
                verdict(outcomes@),
            ),
    {
        let ghost before = self.backends@;
        let mut entries: Vec<BackendOutcome> = Vec::new();
        let under_way = match operation {
            Operation::Start => LifecycleState::Starting,
            Operation::Stop => LifecycleState::Stopping,
        };
        let mut i: usize = 0;
        proof {
            reveal(Seq::filter);
            assert(before.take(0) =~= Seq::<BackendRecord>::empty());
            assert(entries@ =~= before.take(0).filter(pending(operation)).map_values(
                verdict(outcomes@),
            ));
        }
        while i < self.backends.len()
            invariant
                i <= before.len(),
                self.backends@.len() == before.len(),
                self.config == old(self).config,
                self.table == old(self).table,
                self.hub == old(self).hub,
                under_way == crate::protocol::pending_state(operation),
                forall|k: int|
                    0 <= k < i ==> self.backends@[k] == concluded(operation, outcomes@)(before[k]),
                forall|k: int| i <= k < before.len() ==> self.backends@[k] == before[k],
                entries@ == before.take(i as int).filter(pending(operation)).map_values(
                    verdict(outcomes@),
                ),
            decreases before.len() - i,
        {
            proof {
                assert(before.take(i + 1) =~= before.take(i as int).push(before[i as int]));
                before.take(i as int).lemma_filter_push(before[i as int], pending(operation));
            }
            let mut record = self.backends[i];
            if record.state == under_way {
                let result = judge(outcomes, record.id);
                entries.push(BackendOutcome { backend: record.id, result });
                proof {
                    assert(entries@ =~= before.take(i + 1).filter(pending(operation)).map_values(
                        verdict(outcomes@),
                    ));
                }
                record.apply(conclude_event(operation, result), error_in(result));
                self.backends[i] = record;
            }
            i = i + 1;
        }
        proof {
            assert(before.take(before.len() as int) =~= before);
            assert(self.backends@ =~= before.map_values(concluded(operation, outcomes@)));
        }
        BackendFailureReport { entries }
    }

    /// Begins a start: every idle backend becomes `Starting`, and the driver
    /// gets one command for each, bounded by the start timeout. Backends in
    /// another state are left alone.
    pub fn begin_start(&mut self) -> (commands: Vec<LifecycleCommand>)
        requires
            old(self).wf(),
        ensures
            final(self).wf(),
            final(self).options() == old(self).options(),
            final(self).peers() == old(self).peers(),
            final(self).same_mail(old(self)),
            final(self).records() == old(self).records().map_values(requested(Operation::Start)),
            commands@ == old(self).records().filter(awaiting(Operation::Start)).map_values(
                command_for(Operation::Start, old(self).options()),
            ),
    {
        let commands = self.request(Operation::Start);
        proof {
            lemma_rewritten(old(self).backends@, requested(Operation::Start));
            lemma_contributors_widen(
                self.table@,
                scanning_set(old(self).backends@),
                scanning_set(self.backends@),
            );
        }
        commands
    }

    /// Ends a start. Every backend that was `Starting` is judged by what
    /// the driver reported of it, and by nothing else: success makes it
    /// `Scanning`, a timeout or no report `Disabled`, any other failure
    /// `Failed`. The report has one line for each of them, and every
    /// subscriber is told of every failure in it. Afterwards no backend is
    /// `Starting`.
    pub fn finish_start(&mut self, outcomes: &Vec<BackendOutcome>) -> (report: BackendFailureReport)
        requires
            old(self).wf(),
        ensures
            final(self).wf(),
            final(self).options() == old(self).options(),
            final(self).peers() == old(self).peers(),
            final(self).records() == old(self).records().map_values(
                concluded(Operation::Start, outcomes@),
            ),
            report.entries@ == old(self).records().filter(pending(Operation::Start)).map_values(
                verdict(outcomes@),
            ),
            forall|k: int|
                0 <= k < final(self).records().len() ==> !((#[trigger] final(self).records()[k]).state is Starting),
            final(self).mailboxes() == old(self).mailboxes(),
            final(self).stopped() == old(self).stopped(),
            final(self).notices() == delivered(
                old(self).notices(),
                report.entries@.filter(failed()).map_values(as_failure()),
                old(self).stopped(),
            ),
    {
        let report = self.conclude(Operation::Start, outcomes);
        let failures = report.failures();
        self.hub.notify_all(&failures);
        proof {
            lemma_rewritten(old(self).backends@, concluded(Operation::Start, outcomes@));
            lemma_contributors_widen(
                self.table@,
                scanning_set(old(self).backends@),
                scanning_set(self.backends@),
            );
        }
        report
    }

    /// Merges an event that `backend` produced and that arrived at `now`.
    /// Events of a backend that is not registered or not scanning are
    /// dropped. The result is what the merged stream gets, if anything; it
    /// is also put into every subscriber's mailbox.
    pub fn ingest(&mut self, backend: BackendId, event: &DiscoveryEvent, now: u64) -> (r: Option<
        DiscoveryEvent,
    >)
        requires
            old(self).wf(),
        ensures
            final(self).wf(),
            final(self).options() == old(self).options(),
            final(self).records() == old(self).records(),
            final(self).peers() == (if old(self).accepts(backend) {
                merged(old(self).peers(), old(self).options().dedupe_window, backend, event@, now)
            } else {
                old(self).peers()
            }),
            optional_view(r) == (if old(self).accepts(backend) {
                emitted(old(self).peers(), old(self).options().dedupe_window, backend, event@, now)
            } else {
                None
            }),
            final(self).mailboxes() == delivered(
                old(self).mailboxes(),
                at_most_one(optional_view(r)),
                old(self).stopped(),
            ),
            final(self).notices() == old(self).notices(),
            final(self).stopped() == old(self).stopped(),
    {
        let out = if backend >= self.backends.len() || !self.backends[backend].is_scanning() {
            None
        } else {
            let ghost allowed = scanning_set(self.backends@);
            assert(allowed.contains(backend));
            match event {
                DiscoveryEvent::PeerDiscovered(p) => {
                    proof {
                        lemma_discovered_contributors(
                            self.table@,
                            allowed,
                            self.config.dedupe_window,
                            backend,
                            p@.id,
                            p@.signal,
                            now,
                        );
                    }
                    self.table.observe_discovered(backend, p, now)
                },
                DiscoveryEvent::PeerLost(p) => {
                    proof {
                        lemma_lost_contributors(
                            self.table@,
                            allowed,
                            self.config.dedupe_window,
                            backend,
                            p@.id,
                        );
                    }
                    self.table.observe_lost(backend, p)
                },
            }
        };
        match &out {
            Some(e) => {
                self.hub.publish(e);
            },
            None => {
                proof {
                    lemma_delivered_nothing(self.hub@, self.hub.ended());
                }
            },
        }
        out
    }

    /// The periodic sweep, driven by the orchestrator's own clock: evicts
    /// every entry that is stale at `now` and emits one loss for each, to
    /// the caller and to every subscriber.
    pub fn tick(&mut self, now: u64) -> (r: Vec<DiscoveryEvent>)
        requires
            old(self).wf(),
        ensures
            final(self).wf(),
            final(self).options() == old(self).options(),
            final(self).records() == old(self).records(),
            final(self).peers() == after_sweep(
                old(self).peers(),
                now,
                old(self).options().scan_ttl_seconds,
            ),
            event_views(r@) == swept(old(self).peers(), now, old(self).options().scan_ttl_seconds),
            final(self).mailboxes() == delivered(
                old(self).mailboxes(),
                event_views(r@),
                old(self).stopped(),
            ),
            final(self).notices() == old(self).notices(),
            final(self).stopped() == old(self).stopped(),
    {
        proof {
            lemma_sweep_contributors(
                self.table@,
                scanning_set(self.backends@),
                now,
                self.config.scan_ttl_seconds,
            );
        }
        let lost = self.table.sweep(now, self.config.scan_ttl_seconds);
        self.hub.publish_all(&lost);
        lost
    }

    /// The event sequence of `backend` has ended. While the backend is
    /// `Scanning` that is an implicit stop: the backend is disabled, it is
    /// taken off every entry, the loss of every peer it alone reported is
    /// emitted, and every subscriber is told of the failure. In any other
    /// state nothing happens.
    pub fn stream_closed(&mut self, backend: BackendId) -> (r: Vec<DiscoveryEvent>)
        requires
            old(self).wf(),
        ensures
            final(self).wf(),
            final(self).options() == old(self).options(),
            final(self).records() == (if backend < old(self).records().len() {
                old(self).records().update(
                    backend as int,
                    old(self).records()[backend as int].after(LifecycleEvent::StreamClosed, None),
                )
            } else {
                old(self).records()
            }),
            final(self).peers() == (if old(self).runs(backend) {
                after_retire(old(self).peers(), backend)
            } else {
                old(self).peers()
            }),
            event_views(r@) == (if old(self).runs(backend) {
                orphaned(old(self).peers(), backend)
            } else {
                Seq::<DiscoveryEventView>::empty()
            }),
            final(self).mailboxes() == delivered(
                old(self).mailboxes(),
                event_views(r@),
                old(self).stopped(),
            ),
            final(self).notices() == (if old(self).runs(backend) {
                delivered(
                    old(self).notices(),
                    seq![BackendFailure { backend, error: DiscoveryError::StreamClosed }],
                    old(self).stopped(),
                )
            } else {
                old(self).notices()
            }),
            final(self).stopped() == old(self).stopped(),
    {
        if backend < self.backends.len() && self.backends[backend].state
            == LifecycleState::Scanning {
            let ghost before = self.backends@;
            let mut record = self.backends[backend];
            record.apply(LifecycleEvent::StreamClosed, None);
            self.backends[backend] = record;
            proof {
                lemma_retire_contributors(self.table@, scanning_set(before), backend);
                assert forall|t: BackendId|
                    scanning_set(before).remove(backend).contains(t) implies scanning_set(
                    self.backends@,
                ).contains(t) by {
                    assert(self.backends@[t as int] == before[t as int]);
                }
                lemma_contributors_widen(
                    after_retire(self.table@, backend),
                    scanning_set(before).remove(backend),
                    scanning_set(self.backends@),
                );
                assert forall|i: int| 0 <= i < self.backends@.len() implies (
                #[trigger] self.backends@[i]).id == i && self.backends@[i].declared.covers(
                    self.backends@[i].roles,
                ) by {
                    assert(before[i].id == i);
                }
            }
            let lost = self.table.retire(backend);
            self.hub.publish_all(&lost);
            self.hub.notify(BackendFailure { backend, error: DiscoveryError::StreamClosed });
            lost
        } else {
            let none: Vec<DiscoveryEvent> = Vec::new();
            proof {
                assert(event_views(none@) =~= Seq::<DiscoveryEventView>::empty());
                lemma_delivered_nothing(self.hub@, self.hub.ended());
                if backend < self.backends@.len() {
                    assert(self.backends@ =~= self.backends@.update(
                        backend as int,
                        self.backends@[backend as int].after(LifecycleEvent::StreamClosed, None),
                    ));
                }
            }
            none
        }
    }

    /// Begins a stop: every running backend becomes `Stopping`, and the
    /// driver gets one command for each, bounded by the stop timeout. The
    /// backends' sightings end with them: the table is emptied and the loss
    /// of every peer in it is emitted, in table order, to the caller and to
    /// every subscriber.
    pub fn begin_stop(&mut self) -> (plan: StopPlan)
        requires
            old(self).wf(),
        ensures
            final(self).wf(),
            final(self).options() == old(self).options(),
            final(self).peers() == Seq::<PeerInfoView>::empty(),
            final(self).records() == old(self).records().map_values(requested(Operation::Stop)),
            plan.commands@ == old(self).records().filter(awaiting(Operation::Stop)).map_values(
                command_for(Operation::Stop, old(self).options()),
            ),
            event_views(plan.events@) == old(self).peers().map_values(as_lost()),
            final(self).mailboxes() == delivered(
                old(self).mailboxes(),
                event_views(plan.events@),
                old(self).stopped(),
            ),
            final(self).notices() == old(self).notices(),
            final(self).stopped() == old(self).stopped(),
    {
        let events = self.table.drain();
        self.hub.publish_all(&events);
        let commands = self.request(Operation::Stop);
        proof {
            lemma_rewritten(old(self).backends@, requested(Operation::Stop));
        }
        StopPlan { commands, events }
    }

    /// Ends a stop. Every backend that was `Stopping` is judged by what the
    /// driver reported of it: success makes it `Idle`; a timeout or no
    /// report makes it `Disabled` and marks it as leaked; any other failure
    /// leaves it running, to be stopped again. Every subscriber is told of
    /// every failure, and then the merged stream ends. The result is
    /// success when every backend stopped, else the failure of the first
    /// that did not. Afterwards no backend is `Stopping`.
    pub fn finish_stop(&mut self, outcomes: &Vec<BackendOutcome>) -> (r: Result<
        (),
        DiscoveryError,
    >)
        requires
            old(self).wf(),
        ensures
            final(self).wf(),
            final(self).options() == old(self).options(),
            final(self).peers() == old(self).peers(),
            final(self).records() == old(self).records().map_values(
                concluded(Operation::Stop, outcomes@),
            ),
            r == first_failure(
                old(self).records().filter(pending(Operation::Stop)).map_values(verdict(outcomes@)),
            ),
            forall|k: int|
                0 <= k < final(self).records().len() ==> !((#[trigger] final(self).records()[k]).state is Stopping),
            final(self).mailboxes() == old(self).mailboxes(),
            final(self).notices() == delivered(
                old(self).notices(),
                old(self).records().filter(pending(Operation::Stop)).map_values(
                    verdict(outcomes@),
                ).filter(failed()).map_values(as_failure()),
                old(self).stopped(),
            ),
            final(self).stopped(),
    {
        let report = self.conclude(Operation::Stop, outcomes);
        let failures = report.failures();
        self.hub.notify_all(&failures);
        self.hub.close();
        proof {
            lemma_rewritten(old(self).backends@, concluded(Operation::Stop, outcomes@));
            lemma_contributors_widen(
                self.table@,
                scanning_set(old(self).backends@),
                scanning_set(self.backends@),
            );
        }
        report.outcome()
    }

    /// Clears the failure of `backend`: a failed backend becomes idle again
    /// and can be started. Says whether there was a failure to clear.
    pub fn reset(&mut self, backend: BackendId) -> (r: bool)
        requires
            old(self).wf(),
        ensures
            final(self).wf(),
            final(self).options() == old(self).options(),
            final(self).peers() == old(self).peers(),
            final(self).same_mail(old(self)),
            r == (backend < old(self).records().len() && old(self).records()[backend as int].state is Failed),
            final(self).records() == (if backend < old(self).records().len() {
                old(self).records().update(
                    backend as int,
                    old(self).records()[backend as int].after(LifecycleEvent::Reset, None),
                )
            } else {
                old(self).records()
            }),
    {
        if backend < self.backends.len() {
            let ghost before = self.backends@;
            let mut record = self.backends[backend];
            let cleared = record.apply(LifecycleEvent::Reset, None);
            self.backends[backend] = record;
            proof {
                assert forall|t: BackendId| scanning_set(before).contains(t) implies scanning_set(
                    self.backends@,
                ).contains(t) by {
                    assert(t != backend ==> self.backends@[t as int] == before[t as int]);
                }
                lemma_contributors_widen(
                    self.table@,
                    scanning_set(before),
                    scanning_set(self.backends@),
                );
                assert forall|i: int| 0 <= i < self.backends@.len() implies (
                #[trigger] self.backends@[i]).id == i && self.backends@[i].declared.covers(
                    self.backends@[i].roles,
                ) by {
                    assert(before[i].id == i);
                }
            }
            cleared
        } else {
            false
        }
    }

    /// Adds a subscriber to the merged stream. It receives every event and
    /// every failure that is emitted from now on.
    pub fn subscribe(&mut self) -> (r: SubscriberId)
        requires
            old(self).wf(),
        ensures
            final(self).wf(),
            final(self).same_state(old(self)),
            r == old(self).mailboxes().len(),
            final(self).mailboxes() == old(self).mailboxes().push(
                Seq::<DiscoveryEventView>::empty(),
            ),
            final(self).notices() == old(self).notices().push(Seq::<BackendFailure>::empty()),
            final(self).stopped() == old(self).stopped(),
    {
        self.hub.subscribe()
    }

    /// Number of subscribers.
    pub fn subscriber_count(&self) -> (r: usize)
        ensures
            r == self.mailboxes().len(),
            r == self.notices().len(),
    {
        self.hub.subscriber_count()
    }

    /// Whether the merged stream has ended.
    pub fn is_stopped(&self) -> (r: bool)
        ensures
            r == self.stopped(),
    {
        self.hub.is_closed()
    }

    /// Hands a subscriber the merged events that wait for it, in the order
    /// of their emission, and empties that part of its mailbox. An unknown
    /// subscriber gets nothing.
    pub fn events(&mut self, subscriber: SubscriberId) -> (r: Vec<DiscoveryEvent>)
        requires
            old(self).wf(),
        ensures
            final(self).wf(),
            final(self).same_state(old(self)),
            final(self).notices() == old(self).notices(),
            final(self).stopped() == old(self).stopped(),
            subscriber < old(self).mailboxes().len() ==> event_views(r@) == old(self).mailboxes()[subscriber as int] && final(self).mailboxes() == old(self).mailboxes().update(subscriber as int, Seq::<DiscoveryEventView>::empty()),
            subscriber >= old(self).mailboxes().len() ==> r@.len() == 0 && final(self).mailboxes()
                == old(self).mailboxes(),
    {
        self.hub.drain(subscriber)
    }

    /// Hands a subscriber the failures of backends that wait for it, oldest
    /// first, and empties that part of its mailbox. An unknown subscriber
    /// gets nothing.
    pub fn failures(&mut self, subscriber: SubscriberId) -> (r: Vec<BackendFailure>)
        requires
            old(self).wf(),
        ensures
            final(self).wf(),
            final(self).same_state(old(self)),
            final(self).mailboxes() == old(self).mailboxes(),
            final(self).stopped() == old(self).stopped(),
            subscriber < old(self).notices().len() ==> r@ == old(self).notices()[subscriber as int] && final(self).notices() == old(self).notices().update(
                subscriber as int,
                Seq::<BackendFailure>::empty(),
            ),
            subscriber >= old(self).notices().len() ==> r@.len() == 0 && final(self).notices()
                == old(self).notices(),
    {
        self.hub.drain_failures(subscriber)
    }

    /// A copy of the merged table, in table order. Later changes of the
    /// table do not show in it.
    pub fn query_peers(&self) -> (r: Vec<PeerInfo>)
        ensures
            entry_views(r@) == self.peers(),
    {
        self.table.snapshot()
    }
}

} // verus!
