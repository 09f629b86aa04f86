use pdrop_discovery::discovery::DiscoveryEvent;
use pdrop_discovery::hub::EventHub;
use pdrop_discovery::error::DiscoveryError;
use pdrop_discovery::identity::PeerInfo;
use pdrop_discovery::protocol::{BackendFailure, BackendFailureReport, BackendOutcome};

fn discovered(id: &str) -> DiscoveryEvent {
    DiscoveryEvent::PeerDiscovered(PeerInfo::sighting(id.to_string(), None))
}

fn lost(id: &str) -> DiscoveryEvent {
    DiscoveryEvent::PeerLost(PeerInfo::sighting(id.to_string(), None))
}

#[test]
fn every_subscriber_receives_the_full_stream() {
    let mut hub = EventHub::new();
    let a = hub.subscribe();
    let b = hub.subscribe();
    assert_eq!((a, b), (0, 1));
    assert_eq!(hub.subscriber_count(), 2);
    hub.publish(&discovered("P1"));
    hub.publish_all(&vec![discovered("P2"), lost("P1")]);
    let expected = vec![discovered("P1"), discovered("P2"), lost("P1")];
    assert_eq!(hub.drain(a), expected);
    assert_eq!(hub.drain(b), expected);
    assert_eq!(hub.drain(a), vec![]);
}

#[test]
fn subscriber_receives_what_is_published_after_it_subscribed() {
    let mut hub = EventHub::new();
    let a = hub.subscribe();
    hub.publish(&discovered("P1"));
    let b = hub.subscribe();
    hub.publish(&discovered("P2"));
    assert_eq!(hub.drain(b), vec![discovered("P2")]);
    assert_eq!(hub.drain(a), vec![discovered("P1"), discovered("P2")]);
}

#[test]
fn draining_one_subscriber_leaves_the_others() {
    let mut hub = EventHub::new();
    let a = hub.subscribe();
    let b = hub.subscribe();
    hub.publish(&discovered("P1"));
    assert_eq!(hub.drain(a), vec![discovered("P1")]);
    hub.publish(&lost("P1"));
    assert_eq!(hub.drain(b), vec![discovered("P1"), lost("P1")]);
    assert_eq!(hub.drain(a), vec![lost("P1")]);
}

#[test]
fn unknown_subscriber_gets_nothing() {
    let mut hub = EventHub::new();
    hub.subscribe();
    hub.publish(&discovered("P1"));
    assert_eq!(hub.drain(3), vec![]);
    assert_eq!(hub.drain(0), vec![discovered("P1")]);
}

#[test]
fn closed_hub_publishes_nothing_more() {
    let mut hub = EventHub::new();
    let a = hub.subscribe();
    hub.publish(&discovered("P1"));
    assert!(!hub.is_closed());
    hub.close();
    assert!(hub.is_closed());
    hub.publish(&discovered("P2"));
    hub.publish_all(&vec![discovered("P3")]);
    assert_eq!(hub.drain(a), vec![discovered("P1")]);
}

#[test]
fn failures_reach_every_subscriber_apart_from_the_events() {
    let mut hub = EventHub::new();
    let a = hub.subscribe();
    let b = hub.subscribe();
    let timeout = BackendFailure { backend: 1, error: DiscoveryError::Timeout };
    let closed = BackendFailure { backend: 0, error: DiscoveryError::StreamClosed };
    hub.publish(&discovered("P1"));
    hub.notify(timeout);
    hub.notify_all(&vec![closed]);
    hub.publish(&lost("P1"));
    assert_eq!(hub.drain_failures(a), vec![timeout, closed]);
    assert_eq!(hub.drain_failures(a), vec![]);
    assert_eq!(hub.drain(a), vec![discovered("P1"), lost("P1")]);
    assert_eq!(hub.drain(b), vec![discovered("P1"), lost("P1")]);
    assert_eq!(hub.drain_failures(b), vec![timeout, closed]);
    assert_eq!(hub.drain_failures(9), vec![]);
    assert!(!hub.is_closed());
}

#[test]
fn closed_hub_takes_no_more_failures() {
    let mut hub = EventHub::new();
    let a = hub.subscribe();
    hub.close();
    hub.notify(BackendFailure { backend: 0, error: DiscoveryError::OperationError });
    assert_eq!(hub.drain_failures(a), vec![]);
}

#[test]
fn report_lists_its_failures_in_order() {
    let report = BackendFailureReport {
        entries: vec![
            BackendOutcome { backend: 0, result: Err(DiscoveryError::Timeout) },
            BackendOutcome { backend: 1, result: Ok(()) },
            BackendOutcome { backend: 2, result: Err(DiscoveryError::CapabilityUnsupported) },
        ],
    };
    assert_eq!(
        report.failures(),
        vec![
            BackendFailure { backend: 0, error: DiscoveryError::Timeout },
            BackendFailure { backend: 2, error: DiscoveryError::CapabilityUnsupported },
        ]
    );
    assert_eq!(BackendFailureReport { entries: vec![] }.failures(), vec![]);
}
