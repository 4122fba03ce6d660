use mycelium::codec::ControlPacket;
use mycelium::metric::Metric;
use mycelium::peer::{AddError, ConnectionState, Peer, PeerManager, PeerType};
use mycelium::seqno::SeqNo;
use mycelium::subnet::Addr;

#[test]
fn duplicate_peer_is_rejected() {
    let mut pm = PeerManager::new();
    assert_eq!(pm.add_peer(7, PeerType::Static), Ok(7));
    assert_eq!(pm.add_peer(7, PeerType::Inbound), Err(AddError::Duplicate));
    assert_eq!(pm.peers().len(), 1);
}

/// A Static peer whose link drops re-enters the connecting state (to be
/// redialed after the caller's backoff); an Inbound peer whose link drops
/// is removed and never reappears automatically.
#[test]
fn link_loss_depends_on_peer_type() {
    let mut pm = PeerManager::new();
    pm.add_peer(1, PeerType::Static).unwrap();
    pm.add_peer(2, PeerType::Inbound).unwrap();
    pm.add_peer(3, PeerType::LinkLocalDiscovery).unwrap();
    pm.handle_connected(1);
    pm.handle_connected(2);
    pm.handle_connected(3);

    pm.handle_link_lost(1);
    pm.handle_link_lost(2);
    pm.handle_link_lost(3);

    let stats = pm.peers();
    assert_eq!(stats.len(), 1);
    assert_eq!(stats[0].endpoint, 1);
    assert_eq!(stats[0].pt, PeerType::Static);
    assert_eq!(stats[0].connection_state, ConnectionState::Connecting);

    // Nothing recreates the dropped peers on its own.
    let stats = pm.peers();
    assert!(stats.iter().all(|p| p.endpoint != 2 && p.endpoint != 3));
}

#[test]
fn removed_peer_leaves_the_pool_immediately() {
    let mut pm = PeerManager::new();
    pm.add_peer(1, PeerType::Static).unwrap();
    pm.add_peer(2, PeerType::Static).unwrap();
    pm.remove_peer(1);
    let stats = pm.peers();
    assert_eq!(stats.len(), 1);
    assert_eq!(stats[0].endpoint, 2);
    // Removing an unknown peer changes nothing.
    pm.remove_peer(99);
    assert_eq!(pm.peers().len(), 1);
}

/// Each Hello bumps the peer's Hello counter exactly once.
#[test]
fn hello_counter_is_monotonic() {
    let mut pm = PeerManager::new();
    pm.add_peer(5, PeerType::Static).unwrap();

    for expected in 0u16..4 {
        match pm.send_hello(5, 10) {
            Some(ControlPacket::Hello(h)) => {
                assert_eq!(h.seqno, SeqNo(expected));
                assert_eq!(h.interval, 10);
            },
            other => panic!("expected a hello, got {other:?}"),
        }
    }
    assert_eq!(pm.send_hello(99, 10), None);
}

#[test]
fn new_hello_constructor_bumps_the_peer() {
    let mut peer = Peer::new(9, PeerType::Inbound);
    let first = ControlPacket::new_hello(&mut peer, 4);
    let second = ControlPacket::new_hello(&mut peer, 4);
    match (first, second) {
        (ControlPacket::Hello(a), ControlPacket::Hello(b)) => {
            assert_eq!(a.seqno, SeqNo(0));
            assert_eq!(b.seqno, SeqNo(1));
        },
        other => panic!("expected hellos, got {other:?}"),
    }
    assert_eq!(peer.hello_seqno(), SeqNo(2));
}

#[test]
fn ihu_reports_the_observed_metric() {
    let mut pm = PeerManager::new();
    pm.add_peer(5, PeerType::Static).unwrap();
    let dest = Addr { hi: 1, lo: 2 };
    match pm.send_ihu(5, Metric::Value(12), 20, dest) {
        Some(ControlPacket::Ihu(i)) => {
            assert_eq!(i.metric, Metric::Value(12));
            assert_eq!(i.interval, 20);
            assert_eq!(i.dest_address, Some(dest));
        },
        other => panic!("expected an ihu, got {other:?}"),
    }
    assert_eq!(pm.send_ihu(99, Metric::Value(12), 20, dest), None);
}

/// Measured link costs replace the peer's cost contribution; unknown
/// connections report the infinite cost and are left untouched.
#[test]
fn link_cost_updates_feed_the_metric() {
    let mut pm = PeerManager::new();
    pm.add_peer(5, PeerType::Static).unwrap();
    assert_eq!(pm.link_cost(5), Metric::Value(0));
    pm.update_link_cost(5, Metric::Value(17));
    assert_eq!(pm.link_cost(5), Metric::Value(17));
    pm.update_link_cost(99, Metric::Value(3));
    assert_eq!(pm.link_cost(99), Metric::Infinite);
    assert_eq!(pm.link_cost(5), Metric::Value(17));
}

#[test]
fn byte_counters_accumulate_and_saturate() {
    let mut pm = PeerManager::new();
    pm.add_peer(5, PeerType::Static).unwrap();
    pm.record_tx_bytes(5, 100);
    pm.record_tx_bytes(5, 20);
    pm.record_rx_bytes(5, u64::MAX);
    pm.record_rx_bytes(5, 1);
    let stats = pm.peers();
    assert_eq!(stats[0].tx_bytes, 120);
    assert_eq!(stats[0].rx_bytes, u64::MAX);
}

/// A connected peer that stays silent past the allowed interval dies: a
/// static one re-enters the connecting state, any other disappears.
#[test]
fn silent_peers_die_after_the_allowed_interval() {
    let mut pm = PeerManager::new();
    pm.add_peer(1, PeerType::Static).unwrap();
    pm.add_peer(2, PeerType::Inbound).unwrap();
    pm.handle_connected(1);
    pm.handle_connected(2);
    pm.record_heard(1, 1000);
    pm.record_heard(2, 1000);

    // Within the allowed window nothing happens.
    assert!(!pm.check_liveness(1, 1100, 200));
    assert!(!pm.check_liveness(2, 1200, 200));
    assert_eq!(pm.peers().len(), 2);

    // Past it, the static peer reconnects and the inbound one is dropped.
    assert!(pm.check_liveness(1, 1300, 200));
    assert!(pm.check_liveness(2, 1300, 200));
    let stats = pm.peers();
    assert_eq!(stats.len(), 1);
    assert_eq!(stats[0].endpoint, 1);
    assert_eq!(stats[0].connection_state, ConnectionState::Connecting);

    // A fresh Hello restarts the clock.
    pm.handle_connected(1);
    pm.record_heard(1, 1300);
    assert!(!pm.check_liveness(1, 1400, 200));
}

#[test]
fn peer_type_order_is_static_discovery_inbound() {
    assert!(PeerType::Static.rank() < PeerType::LinkLocalDiscovery.rank());
    assert!(PeerType::LinkLocalDiscovery.rank() < PeerType::Inbound.rank());
}
