use chat_node::discovery::DiscoveryEvent;
use chat_node::discovery::DiscoveryTracker;

#[test]
fn repeated_announcements_coalesce() {
    let mut t = DiscoveryTracker::new();
    let peer = String::from("B1");
    let addr = String::from("/ip4/192.168.1.7/tcp/4001");
    match t.record_announcement(&peer, &addr) {
        Some(DiscoveryEvent::Discovered { peer: p, address: a }) => {
            assert_eq!(p, "B1");
            assert_eq!(a, "/ip4/192.168.1.7/tcp/4001");
        },
        _ => panic!("first announcement must emit Discovered"),
    }
    // near-simultaneous repeats from the same peer emit nothing
    assert!(t.record_announcement(&peer, &addr).is_none());
    assert!(t.record_announcement(&peer, &addr).is_none());
    assert!(t.is_known(&peer));
}

#[test]
fn expiry_and_rejoin_cycle() {
    let mut t = DiscoveryTracker::new();
    let peer = String::from("B1");
    let addr = String::from("/ip4/192.168.1.7/tcp/4001");
    assert!(t.record_announcement(&peer, &addr).is_some());
    match t.record_expiry(&peer) {
        Some(DiscoveryEvent::Expired { peer: p }) => assert_eq!(p, "B1"),
        _ => panic!("expiry of a known peer must emit Expired"),
    }
    assert!(!t.is_known(&peer));
    // a timeout for an already-absent peer emits nothing
    assert!(t.record_expiry(&peer).is_none());
    // the peer may rejoin, emitting Discovered again
    assert!(matches!(
        t.record_announcement(&peer, &addr),
        Some(DiscoveryEvent::Discovered { .. })
    ));
}

#[test]
fn distinct_peers_are_tracked_separately() {
    let mut t = DiscoveryTracker::new();
    let b = String::from("B1");
    let c = String::from("C1");
    let addr = String::from("/ip4/10.0.0.2/tcp/4001");
    assert!(t.record_announcement(&b, &addr).is_some());
    assert!(t.record_announcement(&c, &addr).is_some());
    assert!(t.record_expiry(&b).is_some());
    assert!(!t.is_known(&b));
    assert!(t.is_known(&c));
}
