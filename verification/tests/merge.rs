use pdrop_discovery::discovery::DiscoveryEvent;
use pdrop_discovery::identity::{copy_backends, lists_backend, stale, PeerInfo};
use pdrop_discovery::table::{drop_backend, PeerTable};

fn sighting(id: &str) -> PeerInfo {
    PeerInfo::sighting(id.to_string(), Some(-40))
}

fn entry(id: &str, transports: Vec<usize>, last_seen: u64) -> PeerInfo {
    PeerInfo { id: id.to_string(), transports, last_seen, signal: Some(-40) }
}

#[test]
fn sighting_is_stale_once_the_window_has_passed() {
    assert!(!stale(0, 29, 30));
    assert!(stale(0, 30, 30));
    assert!(stale(0, 31, 30));
    assert!(!stale(10, 39, 30));
    assert!(stale(10, 40, 30));
}

#[test]
fn clock_running_backwards_makes_nothing_stale() {
    assert!(!stale(100, 50, 30));
    assert!(!stale(u64::MAX, 0, 1));
}

#[test]
fn zero_window_makes_every_sighting_stale() {
    assert!(stale(5, 5, 0));
    assert!(stale(5, 6, 0));
}

#[test]
fn peer_info_expiry_follows_last_seen() {
    let p = entry("P1", vec![0], 7);
    assert!(!p.expired(36, 30));
    assert!(p.expired(37, 30));
}

#[test]
fn same_peer_compares_identity_only() {
    let a = entry("P1", vec![0], 1);
    let b = entry("P1", vec![3, 4], 99);
    let c = entry("P2", vec![0], 1);
    assert!(a.same_peer(&b));
    assert!(!a.same_peer(&c));
}

#[test]
fn reported_by_looks_at_the_transports() {
    let a = entry("P1", vec![2, 5], 1);
    assert!(a.reported_by(2));
    assert!(a.reported_by(5));
    assert!(!a.reported_by(3));
}

#[test]
fn duplicate_is_equal_and_independent() {
    let a = entry("P1", vec![2, 5], 1);
    let mut b = a.duplicate();
    assert_eq!(a, b);
    b.transports.push(9);
    assert_eq!(a.transports, vec![2, 5]);
}

#[test]
fn backend_list_helpers() {
    assert_eq!(copy_backends(&vec![3, 1, 2]), vec![3, 1, 2]);
    assert!(lists_backend(&vec![3, 1, 2], 1));
    assert!(!lists_backend(&vec![3, 1, 2], 7));
    assert_eq!(drop_backend(&vec![3, 1, 2], 1), vec![3, 2]);
    assert_eq!(drop_backend(&vec![3, 1, 2], 7), vec![3, 1, 2]);
    assert_eq!(drop_backend(&vec![4], 4), Vec::<usize>::new());
}

#[test]
fn first_sighting_announces_the_peer() {
    let mut t = PeerTable::new(true);
    let e = t.observe_discovered(0, &sighting("P1"), 10);
    assert_eq!(e, Some(DiscoveryEvent::PeerDiscovered(entry("P1", vec![0], 10))));
    assert_eq!(t.snapshot(), vec![entry("P1", vec![0], 10)]);
    assert_eq!(t.len(), 1);
    assert!(!t.is_empty());
}

#[test]
fn second_transport_is_merged_silently() {
    let mut t = PeerTable::new(true);
    t.observe_discovered(0, &sighting("P1"), 0);
    let e = t.observe_discovered(1, &sighting("P1"), 1);
    assert_eq!(e, None);
    assert_eq!(t.snapshot(), vec![entry("P1", vec![0, 1], 1)]);
}

#[test]
fn repeated_advertisement_refreshes_without_event() {
    let mut t = PeerTable::new(true);
    t.observe_discovered(0, &sighting("P1"), 0);
    let again = PeerInfo::sighting("P1".to_string(), Some(-70));
    assert_eq!(t.observe_discovered(0, &again, 5), None);
    assert_eq!(
        t.snapshot(),
        vec![PeerInfo { id: "P1".to_string(), transports: vec![0], last_seen: 5, signal: Some(-70) }]
    );
}

#[test]
fn loss_is_emitted_only_for_the_last_contributor() {
    let mut t = PeerTable::new(true);
    t.observe_discovered(0, &sighting("P1"), 0);
    t.observe_discovered(1, &sighting("P1"), 1);
    assert_eq!(t.observe_lost(0, &sighting("P1")), None);
    assert_eq!(t.snapshot(), vec![entry("P1", vec![1], 1)]);
    assert_eq!(
        t.observe_lost(1, &sighting("P1")),
        Some(DiscoveryEvent::PeerLost(entry("P1", vec![1], 1)))
    );
    assert!(t.is_empty());
}

#[test]
fn loss_from_a_stranger_changes_nothing() {
    let mut t = PeerTable::new(true);
    t.observe_discovered(0, &sighting("P1"), 0);
    assert_eq!(t.observe_lost(4, &sighting("P1")), None);
    assert_eq!(t.observe_lost(0, &sighting("P9")), None);
    assert_eq!(t.snapshot(), vec![entry("P1", vec![0], 0)]);
}

#[test]
fn sweep_evicts_stale_entries_in_table_order() {
    let mut t = PeerTable::new(true);
    t.observe_discovered(0, &sighting("A"), 0);
    t.observe_discovered(0, &sighting("B"), 20);
    t.observe_discovered(1, &sighting("C"), 5);
    let lost = t.sweep(30, 30);
    assert_eq!(lost, vec![DiscoveryEvent::PeerLost(entry("A", vec![0], 0))]);
    let lost = t.sweep(40, 30);
    assert_eq!(lost, vec![DiscoveryEvent::PeerLost(entry("C", vec![1], 5))]);
    assert_eq!(t.snapshot(), vec![entry("B", vec![0], 20)]);
    let lost = t.sweep(1000, 30);
    assert_eq!(lost, vec![DiscoveryEvent::PeerLost(entry("B", vec![0], 20))]);
    assert!(t.is_empty());
}

#[test]
fn stale_peer_is_lost_exactly_once() {
    let mut t = PeerTable::new(true);
    t.observe_discovered(0, &sighting("P1"), 0);
    assert_eq!(t.sweep(29, 30), vec![]);
    assert_eq!(t.sweep(31, 30).len(), 1);
    assert_eq!(t.sweep(31, 30), vec![]);
    assert_eq!(t.sweep(500, 30), vec![]);
}

#[test]
fn sighting_after_expiry_is_a_fresh_discovery() {
    let mut t = PeerTable::new(true);
    t.observe_discovered(0, &sighting("P1"), 0);
    t.observe_discovered(1, &sighting("P1"), 1);
    t.sweep(100, 30);
    let e = t.observe_discovered(1, &sighting("P1"), 101);
    assert_eq!(e, Some(DiscoveryEvent::PeerDiscovered(entry("P1", vec![1], 101))));
}

#[test]
fn retire_takes_the_backend_off_every_entry() {
    let mut t = PeerTable::new(true);
    t.observe_discovered(0, &sighting("A"), 0);
    t.observe_discovered(1, &sighting("B"), 1);
    t.observe_discovered(0, &sighting("B"), 2);
    t.observe_discovered(0, &sighting("C"), 3);
    let lost = t.retire(0);
    assert_eq!(
        lost,
        vec![
            DiscoveryEvent::PeerLost(entry("A", vec![0], 0)),
            DiscoveryEvent::PeerLost(entry("C", vec![0], 3)),
        ]
    );
    assert_eq!(t.snapshot(), vec![entry("B", vec![1], 2)]);
    assert_eq!(t.retire(0), vec![]);
}

#[test]
fn drain_reports_every_peer_lost() {
    let mut t = PeerTable::new(true);
    t.observe_discovered(0, &sighting("A"), 0);
    t.observe_discovered(1, &sighting("B"), 1);
    let lost = t.drain();
    assert_eq!(
        lost,
        vec![
            DiscoveryEvent::PeerLost(entry("A", vec![0], 0)),
            DiscoveryEvent::PeerLost(entry("B", vec![1], 1)),
        ]
    );
    assert!(t.is_empty());
    assert_eq!(t.drain(), vec![]);
}

#[test]
fn without_merging_each_transport_has_its_own_entry() {
    let mut t = PeerTable::new(false);
    assert!(!t.dedupe());
    let a = t.observe_discovered(0, &sighting("P1"), 0);
    let b = t.observe_discovered(1, &sighting("P1"), 1);
    assert_eq!(a, Some(DiscoveryEvent::PeerDiscovered(entry("P1", vec![0], 0))));
    assert_eq!(b, Some(DiscoveryEvent::PeerDiscovered(entry("P1", vec![1], 1))));
    assert_eq!(t.observe_discovered(0, &sighting("P1"), 2), None);
    assert_eq!(t.snapshot(), vec![entry("P1", vec![0], 2), entry("P1", vec![1], 1)]);
    assert_eq!(
        t.observe_lost(1, &sighting("P1")),
        Some(DiscoveryEvent::PeerLost(entry("P1", vec![1], 1)))
    );
    assert_eq!(t.snapshot(), vec![entry("P1", vec![0], 2)]);
}

#[test]
fn locate_finds_the_entry_or_the_end() {
    let mut t = PeerTable::new(true);
    t.observe_discovered(0, &sighting("A"), 0);
    t.observe_discovered(0, &sighting("B"), 0);
    assert_eq!(t.locate(5, &"A".to_string()), 0);
    assert_eq!(t.locate(5, &"B".to_string()), 1);
    assert_eq!(t.locate(5, &"C".to_string()), 2);
    let mut u = PeerTable::new(false);
    u.observe_discovered(0, &sighting("A"), 0);
    assert_eq!(u.locate(0, &"A".to_string()), 0);
    assert_eq!(u.locate(1, &"A".to_string()), 1);
}

#[test]
fn snapshot_does_not_follow_the_table() {
    let mut t = PeerTable::new(true);
    t.observe_discovered(0, &sighting("A"), 0);
    let snap = t.snapshot();
    t.observe_discovered(1, &sighting("A"), 9);
    t.observe_discovered(1, &sighting("B"), 9);
    assert_eq!(snap, vec![entry("A", vec![0], 0)]);
}

#[test]
fn event_accessors() {
    let d = DiscoveryEvent::PeerDiscovered(entry("A", vec![0], 0));
    let l = DiscoveryEvent::PeerLost(entry("B", vec![1], 2));
    assert!(d.is_discovered() && !d.is_lost());
    assert!(l.is_lost() && !l.is_discovered());
    assert_eq!(d.peer(), &entry("A", vec![0], 0));
    assert_eq!(l.peer(), &entry("B", vec![1], 2));
    assert_eq!(d.duplicate(), d);
    assert_eq!(l.duplicate(), l);
}
