use pdrop_discovery::backend::Capabilities;
use pdrop_discovery::ble::{
    interpret, Advertisement, BleAdvertiserError, BleDiscovery, BleDiscoveryError, CentralNotice,
    SERVICE_UUID,
};
use pdrop_discovery::discovery::{Advertiser, Discovery, DiscoveryEvent, Fault, Transition};
use pdrop_discovery::error::DiscoveryError;
use pdrop_discovery::identity::PeerInfo;

fn discovered(id: &str) -> DiscoveryEvent {
    DiscoveryEvent::PeerDiscovered(PeerInfo::sighting(id.to_string(), Some(-55)))
}

fn backend(peripheral: bool) -> BleDiscovery {
    BleDiscovery::new(Ok(()), peripheral).unwrap()
}

#[test]
fn backend_needs_a_manager() {
    let r = BleDiscovery::new(Err("no bluetooth".to_string()), true);
    assert_eq!(r.err(), Some(BleDiscoveryError::InitializationError("no bluetooth".to_string())));
    assert!(BleDiscovery::new(Ok(()), false).is_ok());
}

#[test]
fn platform_failure_converts_to_initialization_error() {
    let e: BleDiscoveryError = BleDiscoveryError::from("adapter busy".to_string());
    assert_eq!(e, BleDiscoveryError::InitializationError("adapter busy".to_string()));
}

#[test]
fn declared_capabilities_follow_the_peripheral() {
    assert_eq!(backend(true).capabilities(), Capabilities::both());
    assert_eq!(backend(false).capabilities(), Capabilities::scan_only());
}

#[test]
fn publishing_the_service_always_succeeds() {
    assert_eq!(backend(false).publish_service(), Ok(()));
    assert_eq!(backend(true).publish_service(), Ok(()));
}

#[test]
fn starting_a_scan_twice_succeeds_both_times() {
    let mut b = backend(false);
    assert_eq!(b.start_scan(), Ok(Transition::Changed));
    assert!(b.record(discovered("P1")));
    assert_eq!(b.start_scan(), Ok(Transition::Unchanged));
    assert_eq!(b.start_scan(), Ok(Transition::Unchanged));
    assert_eq!(b.poll_events(), Some(vec![discovered("P1")]));
    assert_eq!(b.poll_events(), Some(vec![]));
}

#[test]
fn stopping_a_scan_is_safe_when_not_scanning() {
    let mut b = backend(false);
    assert_eq!(b.stop_scan(), Ok(Transition::Unchanged));
    b.start_scan().unwrap();
    assert_eq!(b.stop_scan(), Ok(Transition::Changed));
    assert_eq!(b.stop_scan(), Ok(Transition::Unchanged));
}

#[test]
fn events_come_out_in_the_order_of_production() {
    let mut b = backend(false);
    b.start_scan().unwrap();
    b.record(discovered("A"));
    b.record(DiscoveryEvent::PeerLost(PeerInfo::sighting("A".to_string(), None)));
    b.record(discovered("B"));
    assert_eq!(
        b.poll_events(),
        Some(vec![
            discovered("A"),
            DiscoveryEvent::PeerLost(PeerInfo::sighting("A".to_string(), None)),
            discovered("B"),
        ])
    );
}

#[test]
fn sequence_ends_after_the_stop_once_drained() {
    let mut b = backend(false);
    assert_eq!(b.poll_events(), None);
    b.start_scan().unwrap();
    b.record(discovered("A"));
    b.stop_scan().unwrap();
    assert!(!b.record(discovered("late")));
    assert_eq!(b.poll_events(), Some(vec![discovered("A")]));
    assert_eq!(b.poll_events(), None);
}

#[test]
fn failed_scan_ends_the_sequence() {
    let mut b = backend(false);
    b.start_scan().unwrap();
    let e = b.scan_failed("adapter gone".to_string());
    assert_eq!(e, BleDiscoveryError::DiscoveryError("adapter gone".to_string()));
    assert_eq!(b.poll_events(), None);
    assert_eq!(b.start_scan(), Ok(Transition::Changed));
}

#[test]
fn broadcast_without_a_peripheral_is_unsupported() {
    let mut b = backend(false);
    b.start_scan().unwrap();
    b.record(discovered("A"));
    assert_eq!(b.broadcast(), Err(BleAdvertiserError::CapabilityUnsupported));
    assert_eq!(b.stop_broadcast(), Err(BleAdvertiserError::CapabilityUnsupported));
    assert_eq!(b.capabilities(), Capabilities::scan_only());
    assert_eq!(b.start_scan(), Ok(Transition::Unchanged));
    assert_eq!(b.poll_events(), Some(vec![discovered("A")]));
}

#[test]
fn broadcast_with_a_peripheral_is_idempotent() {
    let mut b = backend(true);
    assert_eq!(b.stop_broadcast(), Ok(Transition::Unchanged));
    assert_eq!(b.broadcast(), Ok(Transition::Changed));
    assert_eq!(b.broadcast(), Ok(Transition::Unchanged));
    assert_eq!(b.stop_broadcast(), Ok(Transition::Changed));
    assert_eq!(b.stop_broadcast(), Ok(Transition::Unchanged));
}

#[test]
fn failed_broadcast_can_be_tried_again() {
    let mut b = backend(true);
    b.broadcast().unwrap();
    let e = b.broadcast_failed("busy".to_string());
    assert_eq!(e, BleAdvertiserError::AdvertiserError("busy".to_string()));
    assert_eq!(b.broadcast(), Ok(Transition::Changed));
}

#[test]
fn errors_know_their_kind() {
    assert_eq!(
        BleDiscoveryError::InitializationError(String::new()).classify(),
        DiscoveryError::InitializationError
    );
    assert_eq!(
        BleDiscoveryError::DiscoveryError(String::new()).classify(),
        DiscoveryError::OperationError
    );
    assert_eq!(
        BleAdvertiserError::InitializationError(String::new()).classify(),
        DiscoveryError::InitializationError
    );
    assert_eq!(
        BleAdvertiserError::AdvertiserError(String::new()).classify(),
        DiscoveryError::OperationError
    );
    assert_eq!(
        BleAdvertiserError::CapabilityUnsupported.classify(),
        DiscoveryError::CapabilityUnsupported
    );
}

#[test]
fn first_adapter_is_selected() {
    assert_eq!(BleDiscovery::select_adapter(1), Ok(0));
    assert_eq!(BleDiscovery::select_adapter(4), Ok(0));
    assert!(matches!(BleDiscovery::select_adapter(0), Err(BleDiscoveryError::DiscoveryError(_))));
}

#[test]
fn advertisement_names_the_service() {
    assert_eq!(SERVICE_UUID, 0x180D);
    let a = BleDiscovery::advertisement();
    assert_eq!(
        a,
        Advertisement {
            local_name: "pdrop-01".to_string(),
            services: vec![[0, 0, 0, 0, 0, 0, 0, 0, 0, 0, 0, 0, 0, 0, 0x18, 0x0D]],
        }
    );
    assert_eq!(a.services[0].to_vec(), SERVICE_UUID.to_be_bytes().to_vec());
    assert_ne!(a.services[0].to_vec(), SERVICE_UUID.to_le_bytes().to_vec());
}

#[test]
fn central_notices_become_events() {
    let seen = DiscoveryEvent::PeerDiscovered(PeerInfo::sighting("aa:bb".to_string(), None));
    assert_eq!(interpret(CentralNotice::Discovered, "aa:bb".to_string()), Some(seen.clone()));
    assert_eq!(interpret(CentralNotice::Updated, "aa:bb".to_string()), Some(seen.clone()));
    assert_eq!(interpret(CentralNotice::Connected, "aa:bb".to_string()), Some(seen));
    assert_eq!(
        interpret(CentralNotice::Signal(-61), "aa:bb".to_string()),
        Some(DiscoveryEvent::PeerDiscovered(PeerInfo::sighting("aa:bb".to_string(), Some(-61))))
    );
    assert_eq!(
        interpret(CentralNotice::Disconnected, "aa:bb".to_string()),
        Some(DiscoveryEvent::PeerLost(PeerInfo::sighting("aa:bb".to_string(), None)))
    );
    assert_eq!(interpret(CentralNotice::Other, "aa:bb".to_string()), None);
}
