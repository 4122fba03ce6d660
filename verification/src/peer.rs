//! Peers: one directed link each, with a connection state machine, link
//! accounting, and the set of known peers.
//!
//! A peer is created when a link is established and destroyed when the link
//! is lost, unless it is a statically configured peer: those re-enter the
//! connecting state (the caller schedules the actual reconnection after its
//! backoff) instead of being dropped. Discovered and inbound peers are
//! dropped permanently when their link goes.

use vstd::prelude::*;

use crate::codec::ControlPacket;
use crate::metric::Metric;
use crate::seqno::{seqno_next, SeqNo};

verus! {

/// How a peer came to be known, with an explicit total order used for
/// display grouping: static first, discovered next, inbound last.
#[derive(Clone, Copy, Debug, PartialEq, Eq, Structural)]
pub enum PeerType {
    /// Explicitly configured; reconnected automatically.
    Static,
    /// Found via local broadcast; ephemeral.
    LinkLocalDiscovery,
    /// Accepted from a remote-initiated connection; not retried.
    Inbound,
}

/// Position of a peer type in the display order.
pub open spec fn peer_type_rank(t: PeerType) -> int {
    match t {
        PeerType::Static => 0,
        PeerType::LinkLocalDiscovery => 1,
        PeerType::Inbound => 2,
    }
}

impl PeerType {
    /// Rank in the total order on peer types.
    pub fn rank(self) -> (r: u8)
        ensures
            r as int == peer_type_rank(self),
    {
        match self {
            PeerType::Static => 0,
            PeerType::LinkLocalDiscovery => 1,
            PeerType::Inbound => 2,
        }
    }
}

/// Connection state of one peer.
#[derive(Clone, Copy, Debug, PartialEq, Eq, Structural)]
pub enum ConnectionState {
    /// Link being (re-)established; no Hello exchanged yet.
    Connecting,
    /// Handshake done and first Hello exchanged.
    Connected,
    /// Removed deliberately by the caller. In this engine removal takes the
    /// peer out of the pool in the same step, so snapshots never show this
    /// state; it names the terminal condition for reporting vocabularies.
    Disconnected,
    /// No Hello/IHU within the allowed interval; the link is gone. Dying
    /// coincides with leaving the pool (or, for a static peer, re-entering
    /// the connecting state), so snapshots never show this state either.
    Dead,
}

/// One directed link to a remote node.
#[derive(Clone, Copy, Debug, PartialEq, Eq, Structural)]
pub struct Peer {
    /// Identifier of the transport connection, unique within the peer set.
    pub conn_id: u64,
    /// How the peer came to be known.
    pub peer_type: PeerType,
    /// Current connection state.
    pub state: ConnectionState,
    /// Bytes transmitted over this link.
    pub tx_bytes: u64,
    /// Bytes received over this link.
    pub rx_bytes: u64,
    /// Hello counter, bumped exactly once per Hello sent.
    pub hello_seqno: SeqNo,
    /// Cost contribution of traversing this link.
    pub link_cost: Metric,
    /// When a Hello or IHU was last received over this link.
    pub last_heard: u64,
}

/// The peer with the Hello counter advanced by one and all else unchanged.
pub open spec fn with_next_hello_seqno(p: Peer) -> Peer {
    Peer {
        conn_id: p.conn_id,
        peer_type: p.peer_type,
        state: p.state,
        tx_bytes: p.tx_bytes,
        rx_bytes: p.rx_bytes,
        hello_seqno: SeqNo(seqno_next(p.hello_seqno.0)),
        link_cost: p.link_cost,
        last_heard: p.last_heard,
    }
}

/// The peer with a Hello or IHU receipt recorded at `now` and all else
/// unchanged.
pub open spec fn with_heard(p: Peer, now: u64) -> Peer {
    Peer {
        conn_id: p.conn_id,
        peer_type: p.peer_type,
        state: p.state,
        tx_bytes: p.tx_bytes,
        rx_bytes: p.rx_bytes,
        hello_seqno: p.hello_seqno,
        link_cost: p.link_cost,
        last_heard: now,
    }
}

/// The peer moved to the given connection state and all else unchanged.
pub open spec fn with_state(p: Peer, state: ConnectionState) -> Peer {
    Peer {
        conn_id: p.conn_id,
        peer_type: p.peer_type,
        state,
        tx_bytes: p.tx_bytes,
        rx_bytes: p.rx_bytes,
        hello_seqno: p.hello_seqno,
        link_cost: p.link_cost,
        last_heard: p.last_heard,
    }
}

/// The peer with its transmitted-bytes counter set and all else unchanged.
pub open spec fn with_tx_bytes(p: Peer, v: u64) -> Peer {
    Peer {
        conn_id: p.conn_id,
        peer_type: p.peer_type,
        state: p.state,
        tx_bytes: v,
        rx_bytes: p.rx_bytes,
        hello_seqno: p.hello_seqno,
        link_cost: p.link_cost,
        last_heard: p.last_heard,
    }
}

/// The peer with its received-bytes counter set and all else unchanged.
pub open spec fn with_rx_bytes(p: Peer, v: u64) -> Peer {
    Peer {
        conn_id: p.conn_id,
        peer_type: p.peer_type,
        state: p.state,
        tx_bytes: p.tx_bytes,
        rx_bytes: v,
        hello_seqno: p.hello_seqno,
        link_cost: p.link_cost,
        last_heard: p.last_heard,
    }
}

/// The peer with its link cost set and all else unchanged.
pub open spec fn with_link_cost(p: Peer, cost: Metric) -> Peer {
    Peer {
        conn_id: p.conn_id,
        peer_type: p.peer_type,
        state: p.state,
        tx_bytes: p.tx_bytes,
        rx_bytes: p.rx_bytes,
        hello_seqno: p.hello_seqno,
        link_cost: cost,
        last_heard: p.last_heard,
    }
}

/// Sum of two byte counters, saturating at the top of the range.
pub open spec fn sat_add_u64(a: u64, b: u64) -> u64 {
    if a + b > u64::MAX {
        u64::MAX
    } else {
        (a + b) as u64
    }
}

impl Peer {
    /// A fresh peer on the given connection, about to connect.
    pub fn new(conn_id: u64, peer_type: PeerType) -> (r: Peer)
        ensures
            r == (Peer {
                conn_id,
                peer_type,
                state: ConnectionState::Connecting,
                tx_bytes: 0u64,
                rx_bytes: 0u64,
                hello_seqno: SeqNo(0),
                link_cost: Metric::Value(0),
                last_heard: 0u64,
            }),
    {
        Peer {
            conn_id,
            peer_type,
            state: ConnectionState::Connecting,
            tx_bytes: 0,
            rx_bytes: 0,
            hello_seqno: SeqNo(0),
            link_cost: Metric::Value(0),
            last_heard: 0,
        }
    }

    /// Current value of the Hello counter.
    pub fn hello_seqno(&self) -> (r: SeqNo)
        ensures
            r == self.hello_seqno,
    {
        self.hello_seqno
    }

    /// Advance the Hello counter by one, wrapping at the top.
    pub fn increment_hello_seqno(&mut self)
        ensures
            *final(self) == with_next_hello_seqno(*old(self)),
    {
        self.hello_seqno = self.hello_seqno.next();
    }
}

/// Snapshot of one peer for external reporting; plain scalars only.
#[derive(Clone, Copy, Debug, PartialEq, Eq, Structural)]
pub struct PeerStats {
    /// Connection identifier of the link.
    pub endpoint: u64,
    /// How the peer came to be known.
    pub pt: PeerType,
    /// Current connection state.
    pub connection_state: ConnectionState,
    /// Bytes transmitted over this link.
    pub tx_bytes: u64,
    /// Bytes received over this link.
    pub rx_bytes: u64,
}

/// The snapshot a peer is reported as.
pub open spec fn stats_of(p: Peer) -> PeerStats {
    PeerStats {
        endpoint: p.conn_id,
        pt: p.peer_type,
        connection_state: p.state,
        tx_bytes: p.tx_bytes,
        rx_bytes: p.rx_bytes,
    }
}

/// Adding a peer failed.
#[derive(Clone, Copy, Debug, PartialEq, Eq, Structural)]
pub enum AddError {
    /// A peer with the same connection identifier already exists.
    Duplicate,
}

/// No two peers share a connection identifier.
pub open spec fn peers_unique(s: Seq<Peer>) -> bool {
    forall|i: int, j: int| 0 <= i < j < s.len() ==> s[i].conn_id != s[j].conn_id
}

/// Some peer in `s` has the connection identifier `id`.
pub open spec fn has_peer(s: Seq<Peer>, id: u64) -> bool {
    exists|i: int| 0 <= i < s.len() && s[i].conn_id == id
}

/// The set of known peers, in insertion order.
#[derive(Debug)]
pub struct PeerManager {
    /// The peers, with pairwise distinct connection identifiers.
    pub peers: Vec<Peer>,
}

/// Well-formed peer set: connection identifiers are unique.
pub open spec fn peer_manager_wf(pm: PeerManager) -> bool {
    peers_unique(pm.peers@)
}

impl PeerManager {
    /// An empty peer set.
    pub fn new() -> (r: PeerManager)
        ensures
            r.peers@ =~= Seq::<Peer>::empty(),
            peer_manager_wf(r),
    {
        PeerManager { peers: Vec::new() }
    }

    /// Index of the peer on connection `conn_id`, if known.
    fn find(&self, conn_id: u64) -> (r: Option<usize>)
        ensures
            match r {
                Some(i) => i < self.peers@.len() && self.peers@[i as int].conn_id == conn_id,
                None => !has_peer(self.peers@, conn_id),
            },
    {
        let mut i: usize = 0;
        while i < self.peers.len()
            invariant
                i <= self.peers@.len(),
                forall|j: int| 0 <= j < i ==> self.peers@[j].conn_id != conn_id,
            decreases self.peers@.len() - i,
        {
            if self.peers[i].conn_id == conn_id {
                return Some(i);
            }
            i = i + 1;
        }
        None
    }

    /// Register a peer on a newly established link. Fails if and only if a
    /// peer with the same connection identifier is already known; otherwise
    /// the peer is appended in the connecting state and its identifier is
    /// the handle returned.
    pub fn add_peer(&mut self, conn_id: u64, peer_type: PeerType) -> (r: Result<u64, AddError>)
        requires
            peer_manager_wf(*old(self)),
        ensures
            peer_manager_wf(*final(self)),
            match r {
                Ok(id) => {
                    &&& id == conn_id
                    &&& !has_peer(old(self).peers@, conn_id)
                    &&& final(self).peers@ == old(self).peers@.push(
                        Peer {
                            conn_id,
                            peer_type,
                            state: ConnectionState::Connecting,
                            tx_bytes: 0u64,
                            rx_bytes: 0u64,
                            hello_seqno: SeqNo(0),
                            link_cost: Metric::Value(0),
                            last_heard: 0u64,
                        },
                    )
                },
                Err(e) => {
                    &&& e is Duplicate
                    &&& has_peer(old(self).peers@, conn_id)
                    &&& final(self).peers@ == old(self).peers@
                },
            },
    {
        match self.find(conn_id) {
            Some(_) => Err(AddError::Duplicate),
            None => {
                self.peers.push(Peer::new(conn_id, peer_type));
                Ok(conn_id)
            },
        }
    }

    /// Remove a peer deliberately: it leaves the selection pool at once.
    /// Peers on other connections keep their order.
    pub fn remove_peer(&mut self, conn_id: u64)
        requires
            peer_manager_wf(*old(self)),
        ensures
            peer_manager_wf(*final(self)),
            !has_peer(final(self).peers@, conn_id),
            !has_peer(old(self).peers@, conn_id) ==> final(self).peers@ == old(self).peers@,
            forall|i: int|
                0 <= i < old(self).peers@.len() && old(self).peers@[i].conn_id == conn_id ==> final(self).peers@ == old(self).peers@.remove(i),
    {
        match self.find(conn_id) {
            Some(i) => {
                self.peers.remove(i);
                proof {
                    let oldp = old(self).peers@;
                    let newp = self.peers@;
                    assert forall|k: int|
                        0 <= k < oldp.len() && oldp[k].conn_id == conn_id implies k == i by {}
                    assert(newp =~= oldp.remove(i as int));
                    assert forall|k: int|
                        0 <= k < newp.len() implies newp[k].conn_id != conn_id by {
                        if k < i {
                            assert(newp[k] == oldp[k]);
                        } else {
                            assert(newp[k] == oldp[k + 1]);
                        }
                    }
                }
            },
            None => {},
        }
    }

    /// The peer's link came up: it is connected from now on.
    pub fn handle_connected(&mut self, conn_id: u64)
        requires
            peer_manager_wf(*old(self)),
        ensures
            peer_manager_wf(*final(self)),
            !has_peer(old(self).peers@, conn_id) ==> final(self).peers@ == old(self).peers@,
            forall|i: int|
                0 <= i < old(self).peers@.len() ==> #[trigger] final(self).peers@[i] == (
                if old(self).peers@[i].conn_id == conn_id {
                    with_state(old(self).peers@[i], ConnectionState::Connected)
                } else {
                    old(self).peers@[i]
                }),
            final(self).peers@.len() == old(self).peers@.len(),
    {
        match self.find(conn_id) {
            Some(i) => {
                let p = self.peers[i];
                self.peers.set(i, Peer { state: ConnectionState::Connected, ..p });
            },
            None => {},
        }
    }

    /// The peer's link dropped without a deliberate removal. A static peer
    /// stays known and re-enters the connecting state, to be redialed after
    /// the caller's backoff; any other peer is dropped for good and is never
    /// recreated automatically.
    pub fn handle_link_lost(&mut self, conn_id: u64)
        requires
            peer_manager_wf(*old(self)),
        ensures
            peer_manager_wf(*final(self)),
            !has_peer(old(self).peers@, conn_id) ==> final(self).peers@ == old(self).peers@,
            forall|i: int|
                0 <= i < old(self).peers@.len() && old(self).peers@[i].conn_id == conn_id
                    && old(self).peers@[i].peer_type is Static ==> final(self).peers@ == old(self).peers@.update(i, with_state(old(self).peers@[i], ConnectionState::Connecting)),
            forall|i: int|
                0 <= i < old(self).peers@.len() && old(self).peers@[i].conn_id == conn_id && !(
                old(self).peers@[i].peer_type is Static) ==> final(self).peers@ == old(self).peers@.remove(i),
    {
        match self.find(conn_id) {
            Some(i) => {
                let p = self.peers[i];
                if matches!(p.peer_type, PeerType::Static) {
                    self.peers.set(i, Peer { state: ConnectionState::Connecting, ..p });
                    proof {
                        assert forall|k: int|
                            0 <= k < old(self).peers@.len() && old(self).peers@[k].conn_id
                                == conn_id implies k == i by {}
                    }
                } else {
                    self.peers.remove(i);
                    proof {
                        let oldp = old(self).peers@;
                        let newp = self.peers@;
                        assert forall|k: int|
                            0 <= k < oldp.len() && oldp[k].conn_id == conn_id implies k == i by {}
                        assert(newp =~= oldp.remove(i as int));
                    }
                }
            },
            None => {},
        }
    }

    /// Record that a Hello or IHU arrived over a connection at time `now`:
    /// the peer's liveness clock restarts.
    pub fn record_heard(&mut self, conn_id: u64, now: u64)
        requires
            peer_manager_wf(*old(self)),
        ensures
            peer_manager_wf(*final(self)),
            !has_peer(old(self).peers@, conn_id) ==> final(self).peers@ == old(self).peers@,
            forall|i: int|
                0 <= i < old(self).peers@.len() ==> #[trigger] final(self).peers@[i] == (
                if old(self).peers@[i].conn_id == conn_id {
                    with_heard(old(self).peers@[i], now)
                } else {
                    old(self).peers@[i]
                }),
            final(self).peers@.len() == old(self).peers@.len(),
    {
        match self.find(conn_id) {
            Some(i) => {
                let p = self.peers[i];
                self.peers.set(i, Peer { last_heard: now, ..p });
            },
            None => {},
        }
    }

    /// Judge the liveness of a connected peer at time `now`: one that has
    /// received no Hello or IHU for more than `allowed` time units (the
    /// caller's configured multiple of the advertised interval) is dead.
    /// A dead static peer stays known and re-enters the connecting state,
    /// to be redialed after the caller's backoff; any other dead peer is
    /// dropped for good. The result says whether the peer died.
    pub fn check_liveness(&mut self, conn_id: u64, now: u64, allowed: u64) -> (died: bool)
        requires
            peer_manager_wf(*old(self)),
        ensures
            peer_manager_wf(*final(self)),
            !has_peer(old(self).peers@, conn_id) ==> final(self).peers@ == old(self).peers@
                && !died,
            forall|i: int|
                0 <= i < old(self).peers@.len() && old(self).peers@[i].conn_id == conn_id ==> ({
                    let p = old(self).peers@[i];
                    let expired = p.state is Connected && p.last_heard + allowed < now;
                    &&& died == expired
                    &&& !expired ==> final(self).peers@ == old(self).peers@
                    &&& expired && p.peer_type is Static ==> final(self).peers@ == old(self).peers@.update(i, with_state(p, ConnectionState::Connecting))
                    &&& expired && !(p.peer_type is Static) ==> final(self).peers@ == old(self).peers@.remove(i)
                }),
    {
        match self.find(conn_id) {
            Some(i) => {
                let p = self.peers[i];
                proof {
                    assert forall|k: int|
                        0 <= k < old(self).peers@.len() && old(self).peers@[k].conn_id
                            == conn_id implies k == i by {}
                }
                let connected = matches!(p.state, ConnectionState::Connected);
                if connected && now > allowed && p.last_heard < now - allowed {
                    if matches!(p.peer_type, PeerType::Static) {
                        self.peers.set(i, Peer { state: ConnectionState::Connecting, ..p });
                    } else {
                        self.peers.remove(i);
                        proof {
                            assert(self.peers@ =~= old(self).peers@.remove(i as int));
                        }
                    }
                    true
                } else {
                    false
                }
            },
            None => false,
        }
    }

    /// Snapshot of every known peer, in insertion order, as plain scalars.
    pub fn peers(&self) -> (r: Vec<PeerStats>)
        ensures
            r@.len() == self.peers@.len(),
            forall|i: int| 0 <= i < r@.len() ==> r@[i] == stats_of(self.peers@[i]),
    {
        let mut out: Vec<PeerStats> = Vec::new();
        let mut i: usize = 0;
        while i < self.peers.len()
            invariant
                i <= self.peers@.len(),
                out@.len() == i,
                forall|j: int| 0 <= j < i ==> out@[j] == stats_of(self.peers@[j]),
            decreases self.peers@.len() - i,
        {
            let p = self.peers[i];
            out.push(
                PeerStats {
                    endpoint: p.conn_id,
                    pt: p.peer_type,
                    connection_state: p.state,
                    tx_bytes: p.tx_bytes,
                    rx_bytes: p.rx_bytes,
                },
            );
            i = i + 1;
        }
        out
    }

    /// Build the Hello for one peer, bumping its Hello counter exactly once;
    /// nothing is built for an unknown connection.
    pub fn send_hello(&mut self, conn_id: u64, interval: u16) -> (r: Option<ControlPacket>)
        requires
            peer_manager_wf(*old(self)),
        ensures
            peer_manager_wf(*final(self)),
            !has_peer(old(self).peers@, conn_id) ==> final(self).peers@ == old(self).peers@ && r
                is None,
            forall|i: int|
                0 <= i < old(self).peers@.len() && old(self).peers@[i].conn_id == conn_id ==> {
                    &&& final(self).peers@ == old(self).peers@.update(
                        i,
                        with_next_hello_seqno(old(self).peers@[i]),
                    )
                    &&& r == Some(
                        ControlPacket::Hello(
                            crate::codec::Hello {
                                seqno: old(self).peers@[i].hello_seqno,
                                interval,
                            },
                        ),
                    )
                },
    {
        match self.find(conn_id) {
            Some(i) => {
                let mut p = self.peers[i];
                let packet = ControlPacket::new_hello(&mut p, interval);
                self.peers.set(i, p);
                proof {
                    assert forall|k: int|
                        0 <= k < old(self).peers@.len() && old(self).peers@[k].conn_id
                            == conn_id implies k == i by {}
                }
                Some(packet)
            },
            None => None,
        }
    }

    /// Build the IHU for one peer, reporting the metric observed for it;
    /// nothing is built for an unknown connection.
    pub fn send_ihu(
        &self,
        conn_id: u64,
        observed_metric: Metric,
        interval: u16,
        dest_address: crate::subnet::Addr,
    ) -> (r: Option<ControlPacket>)
        ensures
            has_peer(self.peers@, conn_id) <==> r == Some(
                ControlPacket::Ihu(
                    crate::codec::Ihu {
                        metric: observed_metric,
                        interval,
                        dest_address: Some(dest_address),
                    },
                ),
            ),
            !has_peer(self.peers@, conn_id) <==> r is None,
    {
        match self.find(conn_id) {
            Some(_) => Some(
                ControlPacket::Ihu(
                    crate::codec::Ihu { metric: observed_metric, interval, dest_address: Some(dest_address) },
                ),
            ),
            None => None,
        }
    }

    /// Account `n` bytes transmitted on a connection: that peer's counter
    /// grows by `n`, saturating at the top, and nothing else changes.
    /// Nothing changes for an unknown connection.
    pub fn record_tx_bytes(&mut self, conn_id: u64, n: u64)
        requires
            peer_manager_wf(*old(self)),
        ensures
            peer_manager_wf(*final(self)),
            !has_peer(old(self).peers@, conn_id) ==> final(self).peers@ == old(self).peers@,
            forall|i: int|
                0 <= i < old(self).peers@.len() && old(self).peers@[i].conn_id == conn_id ==> final(self).peers@ == old(self).peers@.update(
                    i,
                    with_tx_bytes(
                        old(self).peers@[i],
                        sat_add_u64(old(self).peers@[i].tx_bytes, n),
                    ),
                ),
    {
        match self.find(conn_id) {
            Some(i) => {
                let p = self.peers[i];
                self.peers.set(i, Peer { tx_bytes: p.tx_bytes.saturating_add(n), ..p });
                proof {
                    assert forall|k: int|
                        0 <= k < old(self).peers@.len() && old(self).peers@[k].conn_id
                            == conn_id implies k == i by {}
                }
            },
            None => {},
        }
    }

    /// Account `n` bytes received on a connection: that peer's counter
    /// grows by `n`, saturating at the top, and nothing else changes.
    /// Nothing changes for an unknown connection.
    pub fn record_rx_bytes(&mut self, conn_id: u64, n: u64)
        requires
            peer_manager_wf(*old(self)),
        ensures
            peer_manager_wf(*final(self)),
            !has_peer(old(self).peers@, conn_id) ==> final(self).peers@ == old(self).peers@,
            forall|i: int|
                0 <= i < old(self).peers@.len() && old(self).peers@[i].conn_id == conn_id ==> final(self).peers@ == old(self).peers@.update(
                    i,
                    with_rx_bytes(
                        old(self).peers@[i],
                        sat_add_u64(old(self).peers@[i].rx_bytes, n),
                    ),
                ),
    {
        match self.find(conn_id) {
            Some(i) => {
                let p = self.peers[i];
                self.peers.set(i, Peer { rx_bytes: p.rx_bytes.saturating_add(n), ..p });
                proof {
                    assert forall|k: int|
                        0 <= k < old(self).peers@.len() && old(self).peers@[k].conn_id
                            == conn_id implies k == i by {}
                }
            },
            None => {},
        }
    }

    /// Record the measured cost of a peer's link, computed by the caller
    /// from its round-trip statistics: that peer's cost contribution is
    /// replaced and nothing else changes. Nothing changes for an unknown
    /// connection.
    pub fn update_link_cost(&mut self, conn_id: u64, cost: Metric)
        requires
            peer_manager_wf(*old(self)),
        ensures
            peer_manager_wf(*final(self)),
            !has_peer(old(self).peers@, conn_id) ==> final(self).peers@ == old(self).peers@,
            forall|i: int|
                0 <= i < old(self).peers@.len() && old(self).peers@[i].conn_id == conn_id ==> final(self).peers@ == old(self).peers@.update(i, with_link_cost(old(self).peers@[i], cost)),
    {
        match self.find(conn_id) {
            Some(i) => {
                let p = self.peers[i];
                self.peers.set(i, Peer { link_cost: cost, ..p });
                proof {
                    assert forall|k: int|
                        0 <= k < old(self).peers@.len() && old(self).peers@[k].conn_id
                            == conn_id implies k == i by {}
                }
            },
            None => {},
        }
    }

    /// The link cost of a peer, used as its metric contribution; infinite
    /// for an unknown connection.
    pub fn link_cost(&self, conn_id: u64) -> (r: Metric)
        requires
            peer_manager_wf(*self),
        ensures
            !has_peer(self.peers@, conn_id) ==> r is Infinite,
            forall|i: int|
                0 <= i < self.peers@.len() && self.peers@[i].conn_id == conn_id ==> r
                    == self.peers@[i].link_cost,
    {
        match self.find(conn_id) {
            Some(i) => {
                proof {
                    assert forall|k: int|
                        0 <= k < self.peers@.len() && self.peers@[k].conn_id
                            == conn_id implies k == i by {}
                }
                self.peers[i].link_cost
            },
            None => Metric::Infinite,
        }
    }
}

} // verus!
