//! Outer packets carried over a link: data packets for the forwarding
//! plane, and control packets (the TLV messages of [`crate::codec`]) for the
//! protocol engine, with the constructors the engine uses.

use vstd::prelude::*;

use crate::codec::{ControlPacket, Hello, Ihu, RouterId, Update};
use crate::subnet::Subnet;
use crate::metric::Metric;
use crate::peer::{with_next_hello_seqno, Peer};
use crate::seqno::SeqNo;
use crate::subnet::Addr;

verus! {

/// Anything that travels over a link.
#[derive(Clone, Debug)]
pub enum Packet {
    /// Encrypted payload for the forwarding plane.
    DataPacket(DataPacket),
    /// A control message of the routing protocol.
    ControlPacket(ControlPacket),
}

/// Wire discriminator between data and control packets.
#[derive(Clone, Copy, Debug, PartialEq, Eq, Structural)]
pub enum PacketType {
    /// A data packet follows.
    DataPacket,
    /// A control packet follows.
    ControlPacket,
}

impl PacketType {
    /// The tag byte this packet type is sent as.
    pub fn to_wire(self) -> (r: u8)
        ensures
            r == (match self {
                PacketType::DataPacket => 0u8,
                PacketType::ControlPacket => 1u8,
            }),
    {
        match self {
            PacketType::DataPacket => 0,
            PacketType::ControlPacket => 1,
        }
    }
}

/// An encrypted payload routed through the overlay.
#[derive(Clone, Debug)]
pub struct DataPacket {
    /// The encrypted payload bytes.
    pub raw_data: Vec<u8>,
    /// Overlay address of the destination.
    pub dest_ip: Addr,
    /// Identity of the destination node.
    pub pubkey: RouterId,
}

/// A received control packet together with where it came from.
#[derive(Clone, Debug)]
pub struct ControlStruct {
    /// The control message.
    pub control_packet: ControlPacket,
    /// Overlay address of the sending peer.
    pub src_overlay_ip: Addr,
}

impl ControlPacket {
    /// Build the Hello for `dest_peer`, bumping its Hello counter exactly
    /// once.
    pub fn new_hello(dest_peer: &mut Peer, interval: u16) -> (r: ControlPacket)
        ensures
            r == ControlPacket::Hello(Hello { seqno: old(dest_peer).hello_seqno, interval }),
            *final(dest_peer) == with_next_hello_seqno(*old(dest_peer)),
    {
        let seqno = dest_peer.hello_seqno();
        dest_peer.increment_hello_seqno();
        ControlPacket::Hello(Hello { seqno, interval })
    }

    /// Build an IHU for the peer at `dest_address`, reporting the metric
    /// observed for it.
    pub fn new_ihu(metric: Metric, interval: u16, dest_address: Addr) -> (r: ControlPacket)
        ensures
            r == ControlPacket::Ihu(Ihu { metric, interval, dest_address: Some(dest_address) }),
    {
        ControlPacket::Ihu(Ihu { metric, interval, dest_address: Some(dest_address) })
    }

    /// Build the Update advertising `subnet` as reachable through this node.
    pub fn new_update(
        interval: u16,
        seqno: SeqNo,
        metric: Metric,
        subnet: Subnet,
        router_id: RouterId,
    ) -> (r: ControlPacket)
        ensures
            r == ControlPacket::Update(Update { interval, seqno, metric, subnet, router_id }),
    {
        ControlPacket::Update(Update { interval, seqno, metric, subnet, router_id })
    }
}

} // verus!
