use pdrop_discovery::backend::{BackendRecord, Capabilities};
use pdrop_discovery::config::Config;
use pdrop_discovery::discovery::DiscoveryEvent;
use pdrop_discovery::error::DiscoveryError;
use pdrop_discovery::identity::PeerInfo;
use pdrop_discovery::lifecycle::LifecycleEvent::{
    Reset, StartFailed, StartRequested, StartSucceeded, StopFailed, StopRequested, StopSucceeded,
    StreamClosed, TimedOut,
};
use pdrop_discovery::lifecycle::LifecycleState::{
    Disabled, Failed, Idle, Scanning, Starting, Stopping,
};
use pdrop_discovery::lifecycle::{failure, step, LifecycleEvent, LifecycleState};
use pdrop_discovery::orchestrator::Orchestrator;
use pdrop_discovery::protocol::{
    conclude_event, error_in, judge, lookup, BackendFailure, BackendFailureReport, BackendOutcome,
    LifecycleCommand, Operation,
};

fn discovered(id: &str) -> DiscoveryEvent {
    DiscoveryEvent::PeerDiscovered(PeerInfo::sighting(id.to_string(), None))
}

fn lost(id: &str) -> DiscoveryEvent {
    DiscoveryEvent::PeerLost(PeerInfo::sighting(id.to_string(), None))
}

fn entry(id: &str, transports: Vec<usize>, last_seen: u64) -> PeerInfo {
    PeerInfo { id: id.to_string(), transports, last_seen, signal: None }
}

fn ok(backend: usize) -> BackendOutcome {
    BackendOutcome { backend, result: Ok(()) }
}

fn err(backend: usize, e: DiscoveryError) -> BackendOutcome {
    BackendOutcome { backend, result: Err(e) }
}

fn running(backends: usize) -> Orchestrator {
    let mut o = Orchestrator::new(Config::default());
    let mut outcomes = Vec::new();
    for i in 0..backends {
        assert_eq!(o.register_backend(Capabilities::both(), Capabilities::scan_only()), Ok(i));
        outcomes.push(ok(i));
    }
    o.begin_start();
    assert!(o.finish_start(&outcomes).all_succeeded());
    o
}

#[test]
fn default_options() {
    let c = Config::default();
    assert_eq!(c.scan_ttl_seconds, 30);
    assert_eq!(c.backend_start_timeout_ms, 5000);
    assert_eq!(c.backend_stop_timeout_ms, 2000);
    assert!(c.dedupe_window);
}

#[test]
fn options_builders_change_one_option_each() {
    let c = Config::default()
        .with_scan_ttl_seconds(7)
        .with_backend_start_timeout_ms(11)
        .with_backend_stop_timeout_ms(13)
        .with_dedupe_window(false);
    assert_eq!(
        c,
        Config {
            scan_ttl_seconds: 7,
            backend_start_timeout_ms: 11,
            backend_stop_timeout_ms: 13,
            dedupe_window: false,
        }
    );
    assert_eq!(Config::default().with_scan_ttl_seconds(7).backend_stop_timeout_ms, 2000);
}

#[test]
fn error_kinds_know_their_policy() {
    assert!(DiscoveryError::OperationError.is_retryable());
    assert!(!DiscoveryError::CapabilityUnsupported.is_retryable());
    assert!(!DiscoveryError::InitializationError.is_retryable());
    assert!(!DiscoveryError::Timeout.is_retryable());
    assert!(!DiscoveryError::StreamClosed.is_retryable());
    assert!(DiscoveryError::Timeout.disables_backend());
    assert!(DiscoveryError::StreamClosed.disables_backend());
    assert!(!DiscoveryError::OperationError.disables_backend());
    assert!(!DiscoveryError::CapabilityUnsupported.disables_backend());
    assert!(!DiscoveryError::InitializationError.disables_backend());
}

#[test]
fn lifecycle_regular_cycle() {
    assert_eq!(step(Idle, StartRequested), Some(Starting));
    assert_eq!(step(Starting, StartSucceeded), Some(Scanning));
    assert_eq!(step(Scanning, StopRequested), Some(Stopping));
    assert_eq!(step(Stopping, StopSucceeded), Some(Idle));
}

#[test]
fn lifecycle_failures_and_disabling() {
    assert_eq!(step(Starting, StartFailed), Some(Failed));
    assert_eq!(step(Starting, TimedOut), Some(Disabled));
    assert_eq!(step(Stopping, TimedOut), Some(Disabled));
    assert_eq!(step(Stopping, StopFailed), Some(Scanning));
    assert_eq!(step(Scanning, StreamClosed), Some(Disabled));
    assert_eq!(step(Failed, Reset), Some(Idle));
}

#[test]
fn lifecycle_ignores_events_without_meaning() {
    let all = [
        StartRequested,
        StartSucceeded,
        StartFailed,
        StopRequested,
        StopSucceeded,
        StopFailed,
        TimedOut,
        StreamClosed,
        Reset,
    ];
    for e in all {
        assert_eq!(step(Disabled, e), None);
        if e != Reset {
            assert_eq!(step(Failed, e), None);
        }
    }
    assert_eq!(step(Idle, StreamClosed), None);
    assert_eq!(step(Stopping, StreamClosed), None);
    assert_eq!(step(Scanning, StartRequested), None);
    assert_eq!(step(Scanning, TimedOut), None);
    assert_eq!(step(Idle, Reset), None);
}

#[test]
fn lifecycle_state_classes() {
    assert!(Failed.is_terminal() && Disabled.is_terminal());
    assert!(!Idle.is_terminal() && !Starting.is_terminal());
    assert!(!Scanning.is_terminal() && !Stopping.is_terminal());
    assert!(Starting.is_engaged() && Scanning.is_engaged() && Stopping.is_engaged());
    assert!(!Idle.is_engaged() && !Failed.is_engaged() && !Disabled.is_engaged());
}

#[test]
fn lifecycle_events_name_their_failure() {
    assert_eq!(failure(StartFailed), Some(DiscoveryError::OperationError));
    assert_eq!(failure(StopFailed), Some(DiscoveryError::OperationError));
    assert_eq!(failure(TimedOut), Some(DiscoveryError::Timeout));
    assert_eq!(failure(StreamClosed), Some(DiscoveryError::StreamClosed));
    assert_eq!(failure(StartSucceeded), None);
    assert_eq!(failure(Reset), None);
}

#[test]
fn capabilities_cover_roles() {
    assert!(Capabilities::both().supports(&Capabilities::scan_only()));
    assert!(Capabilities::both().supports(&Capabilities::advertise_only()));
    assert!(Capabilities::both().supports(&Capabilities::both()));
    assert!(Capabilities::scan_only().supports(&Capabilities::scan_only()));
    assert!(!Capabilities::scan_only().supports(&Capabilities::advertise_only()));
    assert!(!Capabilities::scan_only().supports(&Capabilities::both()));
    assert!(!Capabilities::advertise_only().supports(&Capabilities::scan_only()));
    let none = Capabilities { can_scan: false, can_advertise: false };
    assert!(none.supports(&none));
}

#[test]
fn record_follows_events_and_notes_failures() {
    let mut r = BackendRecord::new(3, Capabilities::both(), Capabilities::both());
    assert_eq!(r.state, LifecycleState::Idle);
    assert!(r.may_release());
    assert!(r.apply(LifecycleEvent::StartRequested, None));
    assert!(!r.may_release());
    assert!(!r.is_scanning());
    assert!(r.apply(LifecycleEvent::StartSucceeded, None));
    assert!(r.is_scanning() && r.is_broadcasting());
    assert!(!r.may_release());
    assert!(!r.apply(LifecycleEvent::StartRequested, None));
    assert!(r.apply(LifecycleEvent::StopRequested, None));
    assert!(r.apply(LifecycleEvent::StopFailed, Some(DiscoveryError::OperationError)));
    assert_eq!(r.last_error, Some(DiscoveryError::OperationError));
    assert_eq!(r.state, LifecycleState::Scanning);
    assert!(r.apply(LifecycleEvent::StopRequested, None));
    assert_eq!(r.last_error, Some(DiscoveryError::OperationError));
    assert!(r.apply(LifecycleEvent::TimedOut, None));
    assert_eq!(r.state, LifecycleState::Disabled);
    assert_eq!(r.last_error, Some(DiscoveryError::Timeout));
    assert!(r.leaked);
    assert!(r.may_release());
    assert_eq!(r.id, 3);
}

#[test]
fn start_timeout_does_not_leak() {
    let mut r = BackendRecord::new(0, Capabilities::both(), Capabilities::scan_only());
    r.apply(LifecycleEvent::StartRequested, None);
    r.apply(LifecycleEvent::TimedOut, Some(DiscoveryError::Timeout));
    assert_eq!(r.state, LifecycleState::Disabled);
    assert!(!r.leaked);
    assert!(!r.is_broadcasting());
}

#[test]
fn registration_refuses_undeclared_roles() {
    let mut o = Orchestrator::new(Config::default());
    assert_eq!(
        o.register_backend(Capabilities::scan_only(), Capabilities::both()),
        Err(DiscoveryError::CapabilityUnsupported)
    );
    assert_eq!(o.backend_count(), 0);
    assert_eq!(o.register_backend(Capabilities::scan_only(), Capabilities::scan_only()), Ok(0));
    assert_eq!(o.register_backend(Capabilities::both(), Capabilities::advertise_only()), Ok(1));
    assert_eq!(o.backend_count(), 2);
    assert_eq!(
        o.record(1),
        Some(BackendRecord {
            id: 1,
            declared: Capabilities::both(),
            roles: Capabilities::advertise_only(),
            state: LifecycleState::Idle,
            last_error: None,
            leaked: false,
        })
    );
    assert_eq!(o.record(2), None);
}

#[test]
fn begin_start_commands_every_idle_backend() {
    let mut o = Orchestrator::new(Config::default().with_backend_start_timeout_ms(750));
    o.register_backend(Capabilities::both(), Capabilities::scan_only()).unwrap();
    o.register_backend(Capabilities::both(), Capabilities::both()).unwrap();
    let commands = o.begin_start();
    assert_eq!(
        commands,
        vec![
            LifecycleCommand {
                backend: 0,
                operation: Operation::Start,
                scan: true,
                broadcast: false,
                timeout_ms: 750,
            },
            LifecycleCommand {
                backend: 1,
                operation: Operation::Start,
                scan: true,
                broadcast: true,
                timeout_ms: 750,
            },
        ]
    );
    assert_eq!(o.record(0).unwrap().state, LifecycleState::Starting);
    assert_eq!(o.begin_start(), vec![]);
}

#[test]
fn one_backend_failing_to_start_leaves_the_other_running() {
    let mut o = Orchestrator::new(Config::default());
    let a = o.register_backend(Capabilities::both(), Capabilities::scan_only()).unwrap();
    let b = o.register_backend(Capabilities::both(), Capabilities::scan_only()).unwrap();
    o.begin_start();
    let report = o.finish_start(&vec![err(b, DiscoveryError::OperationError), ok(a)]);
    assert_eq!(report.entries, vec![ok(a), err(b, DiscoveryError::OperationError)]);
    assert_eq!(report.status(a), Some(Ok(())));
    assert_eq!(report.status(b), Some(Err(DiscoveryError::OperationError)));
    assert_eq!(report.status(7), None);
    assert!(!report.all_succeeded());
    assert_eq!(report.outcome(), Err(DiscoveryError::OperationError));
    assert_eq!(report.len(), 2);
    assert_eq!(o.record(a).unwrap().state, LifecycleState::Scanning);
    assert_eq!(o.record(b).unwrap().state, LifecycleState::Failed);
    assert_eq!(o.record(b).unwrap().last_error, Some(DiscoveryError::OperationError));
    assert_eq!(
        o.ingest(a, &discovered("P1"), 3),
        Some(DiscoveryEvent::PeerDiscovered(entry("P1", vec![a], 3)))
    );
    assert_eq!(o.ingest(b, &discovered("P2"), 3), None);
    assert_eq!(o.query_peers(), vec![entry("P1", vec![a], 3)]);
}

#[test]
fn unreported_start_counts_as_timeout() {
    let mut o = Orchestrator::new(Config::default());
    o.register_backend(Capabilities::both(), Capabilities::scan_only()).unwrap();
    o.register_backend(Capabilities::both(), Capabilities::scan_only()).unwrap();
    o.register_backend(Capabilities::both(), Capabilities::scan_only()).unwrap();
    o.begin_start();
    let report = o.finish_start(&vec![ok(1), err(2, DiscoveryError::Timeout)]);
    assert_eq!(
        report.entries,
        vec![err(0, DiscoveryError::Timeout), ok(1), err(2, DiscoveryError::Timeout)]
    );
    assert_eq!(o.record(0).unwrap().state, LifecycleState::Disabled);
    assert_eq!(o.record(0).unwrap().last_error, Some(DiscoveryError::Timeout));
    assert!(!o.record(0).unwrap().leaked);
    assert_eq!(o.record(1).unwrap().state, LifecycleState::Scanning);
    assert_eq!(o.record(2).unwrap().state, LifecycleState::Disabled);
}

#[test]
fn first_report_about_a_backend_wins() {
    let outcomes = vec![ok(1), err(1, DiscoveryError::OperationError), err(2, DiscoveryError::StreamClosed)];
    assert_eq!(lookup(&outcomes, 1), Some(Ok(())));
    assert_eq!(lookup(&outcomes, 2), Some(Err(DiscoveryError::StreamClosed)));
    assert_eq!(lookup(&outcomes, 0), None);
    assert_eq!(judge(&outcomes, 1), Ok(()));
    assert_eq!(judge(&outcomes, 0), Err(DiscoveryError::Timeout));
}

#[test]
fn results_map_to_lifecycle_events() {
    assert_eq!(conclude_event(Operation::Start, Ok(())), LifecycleEvent::StartSucceeded);
    assert_eq!(conclude_event(Operation::Stop, Ok(())), LifecycleEvent::StopSucceeded);
    assert_eq!(conclude_event(Operation::Start, Err(DiscoveryError::Timeout)), LifecycleEvent::TimedOut);
    assert_eq!(conclude_event(Operation::Stop, Err(DiscoveryError::Timeout)), LifecycleEvent::TimedOut);
    assert_eq!(
        conclude_event(Operation::Start, Err(DiscoveryError::CapabilityUnsupported)),
        LifecycleEvent::StartFailed
    );
    assert_eq!(
        conclude_event(Operation::Stop, Err(DiscoveryError::OperationError)),
        LifecycleEvent::StopFailed
    );
    assert_eq!(error_in(Ok(())), None);
    assert_eq!(error_in(Err(DiscoveryError::StreamClosed)), Some(DiscoveryError::StreamClosed));
}

#[test]
fn report_without_failures_succeeds() {
    let report = BackendFailureReport { entries: vec![ok(0), ok(1)] };
    assert!(report.all_succeeded());
    assert_eq!(report.outcome(), Ok(()));
    let empty = BackendFailureReport { entries: vec![] };
    assert!(empty.all_succeeded());
    let mixed = BackendFailureReport {
        entries: vec![ok(0), err(1, DiscoveryError::Timeout), err(2, DiscoveryError::OperationError)],
    };
    assert_eq!(mixed.outcome(), Err(DiscoveryError::Timeout));
}

#[test]
fn start_failure_keeps_the_reported_kind() {
    let mut o = Orchestrator::new(Config::default());
    o.register_backend(Capabilities::both(), Capabilities::both()).unwrap();
    o.begin_start();
    o.finish_start(&vec![err(0, DiscoveryError::CapabilityUnsupported)]);
    assert_eq!(o.record(0).unwrap().state, LifecycleState::Failed);
    assert_eq!(o.record(0).unwrap().last_error, Some(DiscoveryError::CapabilityUnsupported));
}

#[test]
fn two_backends_one_peer_then_expiry() {
    let mut o = running(2);
    let ttl = o.config().scan_ttl_seconds;
    assert_eq!(
        o.ingest(0, &discovered("P1"), 0),
        Some(DiscoveryEvent::PeerDiscovered(entry("P1", vec![0], 0)))
    );
    assert_eq!(o.ingest(1, &discovered("P1"), 1), None);
    assert_eq!(o.peer_count(), 1);
    assert_eq!(o.tick(ttl), vec![]);
    assert_eq!(o.tick(ttl + 1), vec![DiscoveryEvent::PeerLost(entry("P1", vec![0, 1], 1))]);
    assert_eq!(o.tick(ttl + 1), vec![]);
    assert_eq!(o.tick(ttl + 2), vec![]);
    assert_eq!(o.peer_count(), 0);
}

#[test]
fn no_loss_until_every_contributor_lost_the_peer() {
    let mut o = running(2);
    o.ingest(0, &discovered("P1"), 0);
    o.ingest(1, &discovered("P1"), 1);
    assert_eq!(o.ingest(1, &lost("P1"), 2), None);
    assert_eq!(o.tick(5), vec![]);
    assert_eq!(o.ingest(0, &lost("P1"), 6), Some(DiscoveryEvent::PeerLost(entry("P1", vec![0], 1))));
    assert_eq!(o.query_peers(), vec![]);
}

#[test]
fn events_of_unknown_or_idle_backends_are_dropped() {
    let mut o = Orchestrator::new(Config::default());
    o.register_backend(Capabilities::both(), Capabilities::scan_only()).unwrap();
    assert_eq!(o.ingest(0, &discovered("P1"), 0), None);
    assert_eq!(o.ingest(9, &discovered("P1"), 0), None);
    o.begin_start();
    assert_eq!(o.ingest(0, &discovered("P1"), 0), None);
    assert_eq!(o.peer_count(), 0);
}

#[test]
fn advertise_only_backend_contributes_no_sightings() {
    let mut o = Orchestrator::new(Config::default());
    o.register_backend(Capabilities::both(), Capabilities::advertise_only()).unwrap();
    o.begin_start();
    o.finish_start(&vec![ok(0)]);
    assert!(o.record(0).unwrap().is_broadcasting());
    assert!(!o.record(0).unwrap().is_scanning());
    assert_eq!(o.ingest(0, &discovered("P1"), 0), None);
}

#[test]
fn closed_stream_disables_the_backend_and_cascades() {
    let mut o = running(2);
    o.ingest(0, &discovered("A"), 0);
    o.ingest(1, &discovered("B"), 1);
    o.ingest(0, &discovered("B"), 2);
    let events = o.stream_closed(0);
    assert_eq!(events, vec![DiscoveryEvent::PeerLost(entry("A", vec![0], 0))]);
    assert_eq!(o.record(0).unwrap().state, LifecycleState::Disabled);
    assert_eq!(o.record(0).unwrap().last_error, Some(DiscoveryError::StreamClosed));
    assert_eq!(o.query_peers(), vec![entry("B", vec![1], 2)]);
    assert_eq!(o.ingest(0, &discovered("C"), 3), None);
    assert_eq!(
        o.ingest(1, &discovered("C"), 3),
        Some(DiscoveryEvent::PeerDiscovered(entry("C", vec![1], 3)))
    );
    assert_eq!(o.stream_closed(0), vec![]);
    assert_eq!(o.stream_closed(5), vec![]);
}

#[test]
fn stream_closing_outside_a_scan_is_ignored() {
    let mut o = Orchestrator::new(Config::default());
    o.register_backend(Capabilities::both(), Capabilities::scan_only()).unwrap();
    assert_eq!(o.stream_closed(0), vec![]);
    assert_eq!(o.record(0).unwrap().state, LifecycleState::Idle);
    o.begin_start();
    o.finish_start(&vec![ok(0)]);
    o.begin_stop();
    assert_eq!(o.stream_closed(0), vec![]);
    assert_eq!(o.record(0).unwrap().state, LifecycleState::Stopping);
}

#[test]
fn stop_empties_the_table_and_commands_running_backends() {
    let mut o = Orchestrator::new(Config::default().with_backend_stop_timeout_ms(90));
    o.register_backend(Capabilities::both(), Capabilities::scan_only()).unwrap();
    o.register_backend(Capabilities::both(), Capabilities::both()).unwrap();
    o.register_backend(Capabilities::both(), Capabilities::scan_only()).unwrap();
    o.begin_start();
    o.finish_start(&vec![ok(0), ok(1), err(2, DiscoveryError::OperationError)]);
    o.ingest(0, &discovered("A"), 0);
    o.ingest(1, &discovered("B"), 1);
    let plan = o.begin_stop();
    assert_eq!(
        plan.commands,
        vec![
            LifecycleCommand {
                backend: 0,
                operation: Operation::Stop,
                scan: true,
                broadcast: false,
                timeout_ms: 90,
            },
            LifecycleCommand {
                backend: 1,
                operation: Operation::Stop,
                scan: true,
                broadcast: true,
                timeout_ms: 90,
            },
        ]
    );
    assert_eq!(
        plan.events,
        vec![
            DiscoveryEvent::PeerLost(entry("A", vec![0], 0)),
            DiscoveryEvent::PeerLost(entry("B", vec![1], 1)),
        ]
    );
    assert_eq!(o.peer_count(), 0);
    assert_eq!(o.finish_stop(&vec![ok(0), ok(1)]), Ok(()));
    assert_eq!(o.record(0).unwrap().state, LifecycleState::Idle);
    assert_eq!(o.record(1).unwrap().state, LifecycleState::Idle);
    assert_eq!(o.record(2).unwrap().state, LifecycleState::Failed);
}

#[test]
fn backend_that_never_answers_the_stop_is_given_up() {
    let mut o = running(2);
    o.begin_stop();
    let r = o.finish_stop(&vec![ok(0)]);
    assert_eq!(r, Err(DiscoveryError::Timeout));
    assert_eq!(o.record(0).unwrap().state, LifecycleState::Idle);
    let silent = o.record(1).unwrap();
    assert_eq!(silent.state, LifecycleState::Disabled);
    assert!(silent.leaked);
    assert_eq!(silent.last_error, Some(DiscoveryError::Timeout));
    assert!(silent.may_release());
}

#[test]
fn failed_stop_leaves_the_backend_running() {
    let mut o = running(1);
    o.begin_stop();
    assert_eq!(
        o.finish_stop(&vec![err(0, DiscoveryError::OperationError)]),
        Err(DiscoveryError::OperationError)
    );
    let r = o.record(0).unwrap();
    assert_eq!(r.state, LifecycleState::Scanning);
    assert_eq!(r.last_error, Some(DiscoveryError::OperationError));
    assert!(!r.leaked);
    let plan = o.begin_stop();
    assert_eq!(plan.commands.len(), 1);
    assert_eq!(o.finish_stop(&vec![ok(0)]), Ok(()));
    assert_eq!(o.record(0).unwrap().last_error, None);
}

#[test]
fn reset_clears_a_failure_only() {
    let mut o = Orchestrator::new(Config::default());
    o.register_backend(Capabilities::both(), Capabilities::scan_only()).unwrap();
    o.register_backend(Capabilities::both(), Capabilities::scan_only()).unwrap();
    o.begin_start();
    o.finish_start(&vec![err(0, DiscoveryError::OperationError), err(1, DiscoveryError::Timeout)]);
    assert!(o.reset(0));
    assert_eq!(o.record(0).unwrap().state, LifecycleState::Idle);
    assert_eq!(o.record(0).unwrap().last_error, None);
    assert!(!o.reset(1));
    assert_eq!(o.record(1).unwrap().state, LifecycleState::Disabled);
    assert!(!o.reset(0));
    assert!(!o.reset(8));
    let commands = o.begin_start();
    assert_eq!(commands.len(), 1);
    assert_eq!(commands[0].backend, 0);
}

#[test]
fn without_merging_two_backends_announce_twice() {
    let mut o = Orchestrator::new(Config::default().with_dedupe_window(false));
    o.register_backend(Capabilities::both(), Capabilities::scan_only()).unwrap();
    o.register_backend(Capabilities::both(), Capabilities::scan_only()).unwrap();
    o.begin_start();
    o.finish_start(&vec![ok(0), ok(1)]);
    assert!(o.ingest(0, &discovered("P1"), 0).is_some());
    assert!(o.ingest(1, &discovered("P1"), 1).is_some());
    assert_eq!(o.ingest(1, &discovered("P1"), 2), None);
    assert_eq!(o.peer_count(), 2);
}

#[test]
fn events_of_the_running_backend_reach_every_subscriber() {
    let mut o = Orchestrator::new(Config::default());
    let first = o.subscribe();
    let a = o.register_backend(Capabilities::both(), Capabilities::scan_only()).unwrap();
    let b = o.register_backend(Capabilities::both(), Capabilities::scan_only()).unwrap();
    o.begin_start();
    let report = o.finish_start(&vec![ok(a), err(b, DiscoveryError::OperationError)]);
    assert_eq!(report.status(a), Some(Ok(())));
    assert_eq!(report.status(b), Some(Err(DiscoveryError::OperationError)));
    let second = o.subscribe();
    assert_eq!(o.subscriber_count(), 2);
    o.ingest(a, &discovered("P1"), 1);
    o.ingest(b, &discovered("P2"), 1);
    o.ingest(a, &discovered("P1"), 2);
    o.ingest(a, &lost("P1"), 3);
    let stream = vec![
        DiscoveryEvent::PeerDiscovered(entry("P1", vec![a], 1)),
        DiscoveryEvent::PeerLost(entry("P1", vec![a], 2)),
    ];
    assert_eq!(o.events(first), stream);
    assert_eq!(o.events(second), stream);
    assert_eq!(o.events(first), vec![]);
    assert_eq!(
        o.failures(first),
        vec![BackendFailure { backend: b, error: DiscoveryError::OperationError }]
    );
    assert_eq!(o.failures(second), vec![]);
    assert!(!o.is_stopped());
}

#[test]
fn sweep_and_closed_stream_are_published() {
    let mut o = running(2);
    let s = o.subscribe();
    o.ingest(0, &discovered("A"), 0);
    o.ingest(1, &discovered("B"), 10);
    o.tick(30);
    o.stream_closed(1);
    assert_eq!(
        o.events(s),
        vec![
            DiscoveryEvent::PeerDiscovered(entry("A", vec![0], 0)),
            DiscoveryEvent::PeerDiscovered(entry("B", vec![1], 10)),
            DiscoveryEvent::PeerLost(entry("A", vec![0], 0)),
            DiscoveryEvent::PeerLost(entry("B", vec![1], 10)),
        ]
    );
    assert_eq!(
        o.failures(s),
        vec![BackendFailure { backend: 1, error: DiscoveryError::StreamClosed }]
    );
    o.stream_closed(1);
    assert_eq!(o.failures(s), vec![]);
    assert!(!o.is_stopped());
}

#[test]
fn stream_ends_when_the_stop_completes() {
    let mut o = running(2);
    let s = o.subscribe();
    o.ingest(0, &discovered("A"), 0);
    let plan = o.begin_stop();
    assert!(!o.is_stopped());
    assert_eq!(o.finish_stop(&vec![ok(0)]), Err(DiscoveryError::Timeout));
    assert!(o.is_stopped());
    assert_eq!(
        o.events(s),
        vec![
            DiscoveryEvent::PeerDiscovered(entry("A", vec![0], 0)),
            DiscoveryEvent::PeerLost(entry("A", vec![0], 0)),
        ]
    );
    assert_eq!(plan.events, vec![DiscoveryEvent::PeerLost(entry("A", vec![0], 0))]);
    assert_eq!(o.failures(s), vec![BackendFailure { backend: 1, error: DiscoveryError::Timeout }]);
    assert_eq!(o.events(9), vec![]);
    assert_eq!(o.failures(9), vec![]);
}
