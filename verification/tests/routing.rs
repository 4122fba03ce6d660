use mycelium::codec::{ControlPacket, RouterId, Update};
use mycelium::metric::Metric;
use mycelium::router::Router;
use mycelium::seqno::SeqNo;
use mycelium::subnet::{Addr, Subnet};

const N1: u64 = 1;
const N2: u64 = 2;

fn node_subnet() -> Subnet {
    Subnet::new(Addr { hi: 0x0400_0000_0000_0001, lo: 0 }, 64)
}

fn subnet_s() -> Subnet {
    Subnet::new(Addr { hi: 0x0200_0000_0000_0002, lo: 0 }, 64)
}

fn update(seqno: u16, metric: Metric, subnet: Subnet) -> Update {
    Update { interval: 60, seqno: SeqNo(seqno), metric, subnet, router_id: RouterId(0xa) }
}

/// Peer A advertises S with seqno 5, metric 3 via N1 (link cost 1): the
/// selected metric becomes 4. A later advertisement seqno 5, metric 1 via
/// N2 (link cost 1) gives candidate metric 2 with an equal seqno and a
/// better metric: it takes over, and N1's old entry becomes the fallback.
#[test]
fn better_candidate_takes_over_and_demotes() {
    let mut router = Router::new(RouterId(0xbeef), node_subnet());
    let s = subnet_s();

    let out = router.handle_update(N1, Metric::Value(1), &update(5, Metric::Value(3), s));
    assert!(out.is_some());
    let selected = router.load_selected_routes();
    assert_eq!(selected.len(), 1);
    assert_eq!(selected[0].metric, Metric::Value(4));
    assert_eq!(selected[0].neighbour, N1);
    assert!(router.load_fallback_routes().is_empty());

    let out = router.handle_update(N2, Metric::Value(1), &update(5, Metric::Value(1), s));
    assert!(out.is_some());
    let selected = router.load_selected_routes();
    let fallback = router.load_fallback_routes();
    assert_eq!(selected.len(), 1);
    assert_eq!(selected[0].metric, Metric::Value(2));
    assert_eq!(selected[0].neighbour, N2);
    assert_eq!(selected[0].seqno, SeqNo(5));
    assert_eq!(fallback.len(), 1);
    assert_eq!(fallback[0].metric, Metric::Value(4));
    assert_eq!(fallback[0].neighbour, N1);
}

/// The selection invariant on a concrete run: the selected entry's metric
/// never exceeds the fallback's, whatever order advertisements arrive in.
#[test]
fn selected_entry_keeps_best_metric() {
    let mut router = Router::new(RouterId(0xbeef), node_subnet());
    let s = subnet_s();
    let advertisements = [
        (N1, 1u16, 5u16, 30u16),
        (N2, 2, 5, 10),
        (N1, 1, 6, 50),
        (N2, 2, 6, 4),
        (N1, 1, 7, 4),
    ];
    for (neighbour, cost, seqno, metric) in advertisements {
        router.handle_update(
            neighbour,
            Metric::Value(cost),
            &update(seqno, Metric::Value(metric), s),
        );
        let selected = router.load_selected_routes();
        let fallback = router.load_fallback_routes();
        assert_eq!(selected.len(), 1);
        for f in &fallback {
            assert!(selected[0].metric.le(f.metric));
        }
    }
}

/// A retraction removes the subnet from selected and fallback, and no
/// advertisement with an older-or-equal sequence number resurrects it; a
/// strictly newer one does.
#[test]
fn retraction_removes_and_blocks_resurrection() {
    let mut router = Router::new(RouterId(0xbeef), node_subnet());
    let s = subnet_s();

    router.handle_update(N1, Metric::Value(1), &update(5, Metric::Value(3), s));
    router.handle_update(N2, Metric::Value(1), &update(5, Metric::Value(1), s));
    assert_eq!(router.load_selected_routes().len(), 1);
    assert_eq!(router.load_fallback_routes().len(), 1);

    let out = router.handle_update(N2, Metric::Value(1), &update(5, Metric::Infinite, s));
    assert!(out.is_some());
    assert!(router.load_selected_routes().is_empty());
    assert!(router.load_fallback_routes().is_empty());

    // Same and older sequence numbers cannot bring the subnet back.
    router.handle_update(N1, Metric::Value(1), &update(5, Metric::Value(1), s));
    assert!(router.load_selected_routes().is_empty());
    router.handle_update(N1, Metric::Value(1), &update(4, Metric::Value(1), s));
    assert!(router.load_selected_routes().is_empty());

    // A strictly newer sequence number does.
    let out = router.handle_update(N1, Metric::Value(1), &update(6, Metric::Value(1), s));
    assert!(out.is_some());
    let selected = router.load_selected_routes();
    assert_eq!(selected.len(), 1);
    assert_eq!(selected[0].seqno, SeqNo(6));
}

/// An infeasible or unusable advertisement leaves the table unchanged and
/// asks for no re-advertisement.
#[test]
fn unusable_advertisements_are_ignored() {
    let mut router = Router::new(RouterId(0xbeef), node_subnet());
    let s = subnet_s();

    // A candidate whose metric saturates to infinite is unusable.
    let out = router.handle_update(N1, Metric::Value(2), &update(5, Metric::Value(65533), s));
    assert!(out.is_none());
    assert!(router.load_selected_routes().is_empty());

    // A retraction of an unknown subnet says nothing.
    let out = router.handle_update(N1, Metric::Value(1), &update(5, Metric::Infinite, s));
    assert!(out.is_none());
}

/// The split-horizon outcome names the subnet and the peer to skip.
#[test]
fn handle_update_asks_for_split_horizon_readvertisement() {
    let mut router = Router::new(RouterId(0xbeef), node_subnet());
    let s = subnet_s();
    let out = router
        .handle_update(N1, Metric::Value(1), &update(5, Metric::Value(3), s))
        .expect("a fresh route changes the table");
    assert_eq!(out.subnet, s);
    assert_eq!(out.exclude, N1);
}

/// Advertising to a peer: first the node's own subnet under a freshly
/// incremented sequence number, then every selected route not learned from
/// that very peer, with learned sequence numbers unchanged.
#[test]
fn advertise_all_bumps_own_seqno_and_honours_split_horizon() {
    let mut router = Router::new(RouterId(0xbeef), node_subnet());
    let s = subnet_s();
    let t = Subnet::new(Addr { hi: 0x0200_0000_0000_0003, lo: 0 }, 64);
    router.handle_update(N1, Metric::Value(1), &update(5, Metric::Value(3), s));
    router.handle_update(N2, Metric::Value(1), &update(9, Metric::Value(2), t));

    let packets = router.advertise_all(N1, 60);
    assert_eq!(packets.len(), 2);
    match &packets[0] {
        ControlPacket::Update(u) => {
            assert_eq!(u.subnet, node_subnet());
            assert_eq!(u.seqno, SeqNo(1));
            assert_eq!(u.metric, Metric::Value(0));
            assert_eq!(u.router_id, RouterId(0xbeef));
        },
        other => panic!("expected an update, got {other:?}"),
    }
    match &packets[1] {
        ControlPacket::Update(u) => {
            // The route learned from N1 is skipped; the one from N2 is
            // re-advertised with its learned sequence number and metric.
            assert_eq!(u.subnet, t);
            assert_eq!(u.seqno, SeqNo(9));
            assert_eq!(u.metric, Metric::Value(3));
        },
        other => panic!("expected an update, got {other:?}"),
    }

    // A second round advertises under the next own sequence number.
    let packets = router.advertise_all(N2, 60);
    match &packets[0] {
        ControlPacket::Update(u) => assert_eq!(u.seqno, SeqNo(2)),
        other => panic!("expected an update, got {other:?}"),
    }
}

/// Routes through a lost peer go away; the fallback through another peer
/// is promoted.
#[test]
fn peer_loss_promotes_fallback() {
    let mut router = Router::new(RouterId(0xbeef), node_subnet());
    let s = subnet_s();
    router.handle_update(N1, Metric::Value(1), &update(5, Metric::Value(1), s));
    router.handle_update(N2, Metric::Value(1), &update(5, Metric::Value(5), s));

    router.remove_peer_routes(N1);
    let selected = router.load_selected_routes();
    assert_eq!(selected.len(), 1);
    assert_eq!(selected[0].neighbour, N2);
    assert_eq!(selected[0].metric, Metric::Value(6));
    assert!(router.load_fallback_routes().is_empty());
}

/// Reachability resolves through the selected routes' subnets.
#[test]
fn route_to_finds_containing_subnet() {
    let mut router = Router::new(RouterId(0xbeef), node_subnet());
    let s = subnet_s();
    router.handle_update(N1, Metric::Value(1), &update(5, Metric::Value(3), s));

    let inside = Addr { hi: 0x0200_0000_0000_0002, lo: 0x1234 };
    let outside = Addr { hi: 0x0300_0000_0000_0002, lo: 0 };
    let entry = router.route_to(inside).expect("address inside the subnet has a route");
    assert_eq!(entry.neighbour, N1);
    assert!(router.route_to(outside).is_none());
}

/// The node's own subnet is reported as-is.
#[test]
fn node_tun_subnet_reports_own_subnet() {
    let router = Router::new(RouterId(0xbeef), node_subnet());
    assert_eq!(router.node_tun_subnet(), node_subnet());
    let info = mycelium::api::get_info(&router);
    assert_eq!(info.node_subnet, node_subnet());
}
