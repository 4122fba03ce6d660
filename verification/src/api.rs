//! Plain snapshot and query types handed to the reporting layer.
//!
//! The HTTP surface around the engine only reads snapshots and submits or
//! retrieves messages. Everything here is plain scalars, so a serializer in
//! the surrounding program can carry it without touching engine internals.
//! The metric's infinite case is rendered distinctly from every finite
//! value: a finite metric becomes its decimal digits, the infinite metric
//! the quoted word `"infinite"`.

use vstd::prelude::*;

use crate::codec::RouterId;
use crate::message::{MessageId, ReceivedMessage};
use crate::metric::Metric;
use crate::peer::{PeerManager, PeerStats};
use crate::router::{fallback_routes, selected_routes, RouteEntry, Router};
use crate::subnet::{Addr, Subnet};

verus! {

/// Default number of seconds to try and send a message if no duration is
/// given explicitly.
pub const DEFAULT_MESSAGE_TRY_DURATION_SECS: u64 = 300;

/// Query parameters of a message retrieval.
#[derive(Clone, Debug)]
pub struct GetMessageQuery {
    /// Look at the message without consuming it.
    pub peek: Option<bool>,
    /// Seconds to hold and wait for a message.
    pub timeout: Option<u64>,
    /// Optional topic filter for the message.
    pub topic: Option<Vec<u8>>,
}

impl GetMessageQuery {
    /// Did the query indicate we should peek the message instead of pop?
    pub fn peek(&self) -> (r: bool)
        ensures
            r == (self.peek == Some(true)),
    {
        matches!(self.peek, Some(true))
    }

    /// Amount of seconds to hold and try and get values.
    pub fn timeout_secs(&self) -> (r: u64)
        ensures
            r == (match self.timeout {
                Some(t) => t,
                None => 0u64,
            }),
    {
        match self.timeout {
            Some(t) => t,
            None => 0,
        }
    }
}

/// Query parameters of a message submission.
#[derive(Clone, Copy, Debug)]
pub struct PushMessageQuery {
    /// Seconds to wait for a reply, if a reply is wanted at all.
    pub reply_timeout: Option<u64>,
}

impl PushMessageQuery {
    /// The user requested to wait for the reply or not.
    pub fn await_reply(&self) -> (r: bool)
        ensures
            r == (self.reply_timeout is Some),
    {
        matches!(self.reply_timeout, Some(_))
    }

    /// Amount of seconds to wait for the reply.
    pub fn timeout(&self) -> (r: u64)
        ensures
            r == (match self.reply_timeout {
                Some(t) => t,
                None => 0u64,
            }),
    {
        match self.reply_timeout {
            Some(t) => t,
            None => 0,
        }
    }
}

/// Where a message is sent: an overlay address, or the identity whose
/// derived address the surrounding program resolves.
#[derive(Clone, Copy, Debug)]
pub enum MessageDestination {
    /// An overlay address.
    Ip(Addr),
    /// A node identity; its overlay address is derived outside the engine.
    Pk(RouterId),
}

/// A message handed in for submission.
#[derive(Debug)]
pub struct MessageSendInfo {
    /// Where to send it.
    pub dst: MessageDestination,
    /// Optional topic tag.
    pub topic: Option<Vec<u8>>,
    /// The opaque payload.
    pub payload: Vec<u8>,
}

/// A received message as reported outward.
#[derive(Debug)]
pub struct MessageReceiveInfo {
    /// Identifier of the message.
    pub id: MessageId,
    /// Overlay address of the sender.
    pub src_ip: Addr,
    /// Identity of the sender.
    pub src_pk: RouterId,
    /// Overlay address of the receiving node.
    pub dst_ip: Addr,
    /// Identity of the receiving node.
    pub dst_pk: RouterId,
    /// The topic tag, absent when empty.
    pub topic: Option<Vec<u8>>,
    /// The opaque payload.
    pub payload: Vec<u8>,
}

impl MessageReceiveInfo {
    /// Report a received message outward: an empty topic becomes absent.
    pub fn from_received(m: ReceivedMessage) -> (r: MessageReceiveInfo)
        ensures
            r.id == m.id,
            r.src_ip == m.src_ip,
            r.src_pk == m.src_pk,
            r.dst_ip == m.dst_ip,
            r.dst_pk == m.dst_pk,
            m.topic@.len() == 0 ==> r.topic is None,
            m.topic@.len() > 0 ==> (r.topic matches Some(t) && t@ == m.topic@),
            r.payload@ == m.data@,
    {
        let topic = if m.topic.len() == 0 {
            None
        } else {
            Some(m.topic)
        };
        MessageReceiveInfo {
            id: m.id,
            src_ip: m.src_ip,
            src_pk: m.src_pk,
            dst_ip: m.dst_ip,
            dst_pk: m.dst_pk,
            topic,
            payload: m.data,
        }
    }
}

/// Reply to a message submission: the identifier it was registered under.
#[derive(Clone, Copy, Debug, PartialEq, Eq, Structural)]
pub struct MessageIdReply {
    /// Identifier of the submission.
    pub id: MessageId,
}

/// What a submission answers with: the awaited reply when one arrived in
/// time, the submission's identifier otherwise.
#[derive(Debug)]
pub enum PushMessageResponse {
    /// The awaited reply.
    Reply(MessageReceiveInfo),
    /// The identifier of the submission.
    Id(MessageIdReply),
}

/// Decimal digits of `n`, most significant first.
pub open spec fn dec_digits(n: nat) -> Seq<u8>
    decreases n,
{
    if n < 10 {
        seq![(48 + n) as u8]
    } else {
        dec_digits(n / 10).push((48 + n % 10) as u8)
    }
}

/// The JSON rendering of a metric: decimal digits for a finite value, the
/// quoted word `"infinite"` for the infinite one, as bytes.
pub open spec fn metric_json(m: Metric) -> Seq<u8> {
    match m {
        Metric::Value(v) => dec_digits(v as nat),
        Metric::Infinite => seq![34u8, 105u8, 110u8, 102u8, 105u8, 110u8, 105u8, 116u8, 101u8, 34u8],
    }
}

/// Append the decimal digits of `v`.
fn push_decimal(out: &mut Vec<u8>, v: u16)
    ensures
        final(out)@ == old(out)@ + dec_digits(v as nat),
    decreases v,
{
    if v < 10 {
        out.push(48 + (v as u8));
        assert(out@ =~= old(out)@ + dec_digits(v as nat));
    } else {
        push_decimal(out, v / 10);
        out.push(48 + ((v % 10) as u8));
        assert(out@ =~= old(out)@ + dec_digits(v as nat));
    }
}

impl Metric {
    /// The JSON value this metric serializes as: the infinite case is a
    /// sentinel string, distinct from every finite numeric value.
    pub fn to_json(&self) -> (r: Vec<u8>)
        ensures
            r@ == metric_json(*self),
    {
        let mut out: Vec<u8> = Vec::new();
        match self {
            Metric::Value(v) => push_decimal(&mut out, *v),
            Metric::Infinite => {
                out.push(34);
                out.push(105);
                out.push(110);
                out.push(102);
                out.push(105);
                out.push(110);
                out.push(105);
                out.push(116);
                out.push(101);
                out.push(34);
                assert(out@ =~= metric_json(*self));
            },
        }
        out
    }
}

/// Info about a route, in plain scalars for reporting.
#[derive(Clone, Copy, Debug, PartialEq, Eq, Structural)]
pub struct Route {
    /// The subnet the route leads to.
    pub subnet: Subnet,
    /// Connection identifier of the next-hop peer.
    pub next_hop: u64,
    /// Computed metric of the route.
    pub metric: Metric,
    /// Sequence number of the route.
    pub seqno: u16,
}

/// The reported form of one route entry.
pub open spec fn route_of(e: RouteEntry) -> Route {
    Route { subnet: e.subnet, next_hop: e.neighbour, metric: e.metric, seqno: e.seqno.0 }
}

/// Turn a list of route entries into their reported form.
fn report_routes(entries: &Vec<RouteEntry>) -> (r: Vec<Route>)
    ensures
        r@.len() == entries@.len(),
        forall|i: int| 0 <= i < r@.len() ==> r@[i] == route_of(entries@[i]),
{
    let mut out: Vec<Route> = Vec::new();
    let mut i: usize = 0;
    while i < entries.len()
        invariant
            i <= entries@.len(),
            out@.len() == i,
            forall|j: int| 0 <= j < i ==> out@[j] == route_of(entries@[j]),
        decreases entries@.len() - i,
    {
        let e = entries[i];
        out.push(Route { subnet: e.subnet, next_hop: e.neighbour, metric: e.metric, seqno: e.seqno.0 });
        i = i + 1;
    }
    out
}

/// List all currently selected routes.
pub fn get_selected_routes(router: &Router) -> (r: Vec<Route>)
    ensures
        r@.len() == selected_routes(router.table@).len(),
        forall|i: int|
            0 <= i < r@.len() ==> r@[i] == route_of(selected_routes(router.table@)[i]),
{
    report_routes(&router.load_selected_routes())
}

/// List all active fallback routes.
pub fn get_fallback_routes(router: &Router) -> (r: Vec<Route>)
    ensures
        r@.len() == fallback_routes(router.table@).len(),
        forall|i: int|
            0 <= i < r@.len() ==> r@[i] == route_of(fallback_routes(router.table@)[i]),
{
    report_routes(&router.load_fallback_routes())
}

/// Get the stats of the current known peers.
pub fn get_peers(pm: &PeerManager) -> (r: Vec<PeerStats>)
    ensures
        r@.len() == pm.peers@.len(),
        forall|i: int| 0 <= i < r@.len() ==> r@[i] == crate::peer::stats_of(pm.peers@[i]),
{
    pm.peers()
}

/// General info about a node.
#[derive(Clone, Copy, Debug, PartialEq, Eq, Structural)]
pub struct Info {
    /// The overlay subnet in use by the node.
    pub node_subnet: Subnet,
}

/// Get general info about the node.
pub fn get_info(router: &Router) -> (r: Info)
    ensures
        r.node_subnet == router.node_subnet,
{
    Info { node_subnet: router.node_tun_subnet() }
}

} // verus!
