//! The route table and the Babel-style route selection algorithm.
//!
//! Per subnet the table retains one selected entry (used for forwarding) and
//! at most one fallback entry, together with the sequence number of the
//! latest retraction seen for the subnet. A received advertisement becomes a
//! candidate entry whose metric is the advertised metric plus the cost of
//! the link it arrived over; the candidate is accepted only if it is
//! feasible, and promoted to selected only if it beats the current selected
//! entry, with ties broken towards the newer sequence number and then
//! towards the incumbent (stability).
//!
//! Feasibility here is the loop-prevention rule: after a retraction at
//! sequence number `s`, only advertisements with a sequence number strictly
//! newer than `s` are accepted for the subnet. This is the general
//! "best entry retracted or replaced" bound specialised to the events that
//! remove entries from this table: a retraction records its sequence number
//! with the lowest possible metric, so an equal sequence number can never be
//! strictly better, and the bound reduces to the retraction's sequence
//! number alone. That choice of bound is a policy choice of this engine.

use vstd::prelude::*;

use crate::codec::{ControlPacket, RouterId, Update};
use crate::metric::{metric_add, metric_le, metric_lt, metric_wf, Metric};
use crate::seqno::{seqno_newer, seqno_next, SeqNo};
use crate::subnet::{subnet_contains, subnet_wf, Addr, Subnet};

verus! {

/// One route to a subnet, learned from one neighbour.
#[derive(Clone, Copy, Debug, PartialEq, Eq, Structural)]
pub struct RouteEntry {
    /// The subnet the route leads to.
    pub subnet: Subnet,
    /// Identity of the router that originated the advertisement.
    pub router_id: RouterId,
    /// Sequence number of the advertisement, set by the originator.
    pub seqno: SeqNo,
    /// Total metric: advertised metric plus the cost of the learning link.
    pub metric: Metric,
    /// Connection identifier of the next-hop peer.
    pub neighbour: u64,
}

/// Everything the table holds about one subnet.
#[derive(Clone, Copy, Debug, PartialEq, Eq, Structural)]
pub struct SubnetEntry {
    /// The subnet this entry is about.
    pub subnet: Subnet,
    /// The forwarding-eligible best feasible route, if any.
    pub selected: Option<RouteEntry>,
    /// At most one retained alternate route.
    pub fallback: Option<RouteEntry>,
    /// Sequence number of the newest retraction seen for this subnet.
    pub retracted: Option<SeqNo>,
}

/// What `handle_update` asks the caller to do: re-advertise the subnet to
/// every peer except the one the change was learned from (split-horizon).
#[derive(Clone, Copy, Debug, PartialEq, Eq, Structural)]
pub struct Readvertise {
    /// The subnet whose table state changed.
    pub subnet: Subnet,
    /// The peer the change was learned from, to be skipped.
    pub exclude: u64,
}

/// The feasibility rule: with no retraction recorded every advertisement is
/// feasible; after a retraction only strictly newer sequence numbers are.
pub open spec fn entry_feasible(retracted: Option<SeqNo>, seqno: SeqNo) -> bool {
    match retracted {
        None => true,
        Some(b) => seqno_newer(b.0, seqno.0),
    }
}

/// The candidate `c` is preferred over the incumbent `s`: strictly better
/// metric, or equal metric and strictly newer sequence number. On full ties
/// the incumbent wins (stability).
pub open spec fn prefer(c: RouteEntry, s: RouteEntry) -> bool {
    metric_lt(c.metric, s.metric) || (c.metric == s.metric && seqno_newer(s.seqno.0, c.seqno.0))
}

/// A well-formed table slot: routes are for this subnet with finite metrics
/// and feasible sequence numbers; a fallback exists only beside a selected
/// entry from a different neighbour, and selection is best-first.
pub open spec fn subnet_entry_wf(e: SubnetEntry) -> bool {
    &&& subnet_wf(e.subnet)
    &&& (e.selected matches Some(s) ==> s.subnet == e.subnet && !(s.metric is Infinite)
        && metric_wf(s.metric) && entry_feasible(e.retracted, s.seqno))
    &&& (e.fallback matches Some(f) ==> f.subnet == e.subnet && !(f.metric is Infinite)
        && metric_wf(f.metric) && entry_feasible(e.retracted, f.seqno))
    &&& (e.fallback is Some ==> e.selected is Some)
    &&& (match (e.selected, e.fallback) {
        (Some(s), Some(f)) => metric_le(s.metric, f.metric) && s.neighbour != f.neighbour,
        _ => true,
    })
}

/// The candidate entry an advertisement becomes: the advertised values with
/// the link cost added in.
pub open spec fn candidate_entry(u: Update, neighbour: u64, cost: Metric) -> RouteEntry {
    RouteEntry {
        subnet: u.subnet,
        router_id: u.router_id,
        seqno: u.seqno,
        metric: metric_add(u.metric, cost),
        neighbour,
    }
}

/// The slot a first accepted candidate creates.
pub open spec fn fresh_entry(u: Update, neighbour: u64, cost: Metric) -> SubnetEntry {
    SubnetEntry {
        subnet: u.subnet,
        selected: Some(candidate_entry(u, neighbour, cost)),
        fallback: None,
        retracted: None,
    }
}

/// Apply a retraction at `seqno` to one slot: the recorded retraction moves
/// to the newest seen, routes without a strictly newer sequence number are
/// dropped, and the fallback is promoted when the selected entry is dropped
/// (re-selection).
pub open spec fn apply_retraction(e: SubnetEntry, seqno: SeqNo) -> SubnetEntry {
    let bound = match e.retracted {
        None => seqno,
        Some(b) => if seqno_newer(b.0, seqno.0) {
            seqno
        } else {
            b
        },
    };
    let sel = match e.selected {
        None => None,
        Some(s) => if entry_feasible(Some(bound), s.seqno) {
            Some(s)
        } else {
            None
        },
    };
    let fb = match e.fallback {
        None => None,
        Some(f) => if entry_feasible(Some(bound), f.seqno) {
            Some(f)
        } else {
            None
        },
    };
    match sel {
        Some(_) => SubnetEntry { subnet: e.subnet, selected: sel, fallback: fb, retracted: Some(bound) },
        None => SubnetEntry { subnet: e.subnet, selected: fb, fallback: None, retracted: Some(bound) },
    }
}

/// Fold a feasible finite candidate into one slot: an entry from the same
/// neighbour is updated in place, otherwise the candidate competes for the
/// selected position and then for the single fallback position, the worst
/// contender being evicted.
pub open spec fn apply_candidate(e: SubnetEntry, c: RouteEntry) -> SubnetEntry {
    match e.selected {
        None => SubnetEntry { subnet: e.subnet, selected: Some(c), fallback: None, retracted: e.retracted },
        Some(s) => {
            if c.neighbour == s.neighbour {
                // In-place update of the selected entry, re-ordered against
                // the fallback.
                match e.fallback {
                    None => SubnetEntry { subnet: e.subnet, selected: Some(c), fallback: None, retracted: e.retracted },
                    Some(f) => if prefer(f, c) {
                        SubnetEntry { subnet: e.subnet, selected: Some(f), fallback: Some(c), retracted: e.retracted }
                    } else {
                        SubnetEntry { subnet: e.subnet, selected: Some(c), fallback: Some(f), retracted: e.retracted }
                    },
                }
            } else {
                match e.fallback {
                    Some(f) => if c.neighbour == f.neighbour {
                        // In-place update of the fallback entry, re-ordered
                        // against the selected entry.
                        if prefer(c, s) {
                            SubnetEntry { subnet: e.subnet, selected: Some(c), fallback: Some(s), retracted: e.retracted }
                        } else {
                            SubnetEntry { subnet: e.subnet, selected: Some(s), fallback: Some(c), retracted: e.retracted }
                        }
                    } else {
                        // A third neighbour: the candidate competes, and of
                        // the three contenders the worst is evicted.
                        if prefer(c, s) {
                            let demoted = if prefer(s, f) {
                                s
                            } else {
                                f
                            };
                            SubnetEntry { subnet: e.subnet, selected: Some(c), fallback: Some(demoted), retracted: e.retracted }
                        } else if prefer(c, f) {
                            SubnetEntry { subnet: e.subnet, selected: Some(s), fallback: Some(c), retracted: e.retracted }
                        } else {
                            e
                        }
                    },
                    None => if prefer(c, s) {
                        SubnetEntry { subnet: e.subnet, selected: Some(c), fallback: Some(s), retracted: e.retracted }
                    } else {
                        SubnetEntry { subnet: e.subnet, selected: Some(s), fallback: Some(c), retracted: e.retracted }
                    },
                }
            }
        },
    }
}

/// Whether an advertisement takes effect on a slot: a retraction always
/// does; a finite advertisement does when its candidate metric is finite
/// and its sequence number is feasible.
pub open spec fn update_engaged(e: SubnetEntry, u: Update, cost: Metric) -> bool {
    if u.metric is Infinite {
        true
    } else {
        !(metric_add(u.metric, cost) is Infinite) && entry_feasible(e.retracted, u.seqno)
    }
}

/// The new state of a slot after one advertisement for its subnet.
pub open spec fn subnet_transition(e: SubnetEntry, u: Update, neighbour: u64, cost: Metric) -> SubnetEntry {
    if u.metric is Infinite {
        apply_retraction(e, u.seqno)
    } else if metric_add(u.metric, cost) is Infinite {
        e
    } else if !entry_feasible(e.retracted, u.seqno) {
        e
    } else {
        apply_candidate(e, candidate_entry(u, neighbour, cost))
    }
}

/// Some slot in `s` is about `sub`.
pub open spec fn has_subnet(s: Seq<SubnetEntry>, sub: Subnet) -> bool {
    exists|i: int| 0 <= i < s.len() && s[i].subnet == sub
}

/// The selection invariant is preserved by every advertisement: a
/// well-formed slot stays well-formed, so in particular the selected entry
/// keeps the best (lowest) metric of the retained feasible entries.
pub proof fn lemma_transition_preserves_wf(e: SubnetEntry, u: Update, neighbour: u64, cost: Metric)
    requires
        subnet_entry_wf(e),
        u.subnet == e.subnet,
    ensures
        subnet_entry_wf(subnet_transition(e, u, neighbour, cost)),
        subnet_transition(e, u, neighbour, cost).subnet == e.subnet,
{
    crate::metric::lemma_metric_order(u.metric, cost);
}


/// Fold a whole sequence of advertisements (each with its neighbour and
/// link cost) into one slot, in order.
pub open spec fn apply_updates(e: SubnetEntry, us: Seq<(Update, u64, Metric)>) -> SubnetEntry
    decreases us.len(),
{
    if us.len() == 0 {
        e
    } else {
        subnet_transition(apply_updates(e, us.drop_last()), us.last().0, us.last().1, us.last().2)
    }
}

/// Selection invariant: over any sequence of advertisements applied to one
/// subnet, the slot stays well-formed; in particular the selected entry's
/// metric never exceeds the metric of the retained feasible fallback entry.
pub proof fn lemma_selection_invariant(e: SubnetEntry, us: Seq<(Update, u64, Metric)>)
    requires
        subnet_entry_wf(e),
        forall|k: int| 0 <= k < us.len() ==> (#[trigger] us[k]).0.subnet == e.subnet,
    ensures
        subnet_entry_wf(apply_updates(e, us)),
        apply_updates(e, us).subnet == e.subnet,
        apply_updates(e, us).fallback matches Some(f) ==> (apply_updates(e, us).selected matches Some(
            s,
        ) && metric_le(s.metric, f.metric)),
    decreases us.len(),
{
    if us.len() > 0 {
        lemma_selection_invariant(e, us.drop_last());
        lemma_transition_preserves_wf(
            apply_updates(e, us.drop_last()),
            us.last().0,
            us.last().1,
            us.last().2,
        );
    }
}

/// Retraction law: a retraction at `s` drops every route of the subnet that
/// does not carry a strictly newer sequence number, and once the slot is
/// emptied no advertisement whose sequence number is not strictly newer
/// than `s` can bring the subnet back. (With a still newer retraction
/// already recorded in the slot, the bound recorded there wins instead.)
pub proof fn lemma_retraction_no_resurrection(
    e: SubnetEntry,
    s: SeqNo,
    u: Update,
    neighbour: u64,
    cost: Metric,
)
    requires
        subnet_entry_wf(e),
        e.retracted is None,
        !seqno_newer(s.0, u.seqno.0),
    ensures
        ({
            let e1 = apply_retraction(e, s);
            &&& (e1.selected matches Some(x) ==> seqno_newer(s.0, x.seqno.0))
            &&& (e1.fallback matches Some(x) ==> seqno_newer(s.0, x.seqno.0))
            &&& (e1.selected is None ==> subnet_transition(e1, u, neighbour, cost).selected is None)
            &&& (e1.selected is None ==> subnet_transition(e1, u, neighbour, cost).fallback is None)
        }),
{
}

/// A destination is reachable when some slot's selected route leads to a
/// subnet containing it.
pub open spec fn reachable(s: Seq<SubnetEntry>, dest: Addr) -> bool {
    exists|i: int|
        0 <= i < s.len() && ((#[trigger] s[i]).selected matches Some(e) && subnet_contains(
            e.subnet,
            dest,
        ))
}

/// No two slots are about the same subnet.
pub open spec fn subnets_unique(s: Seq<SubnetEntry>) -> bool {
    forall|i: int, j: int| 0 <= i < j < s.len() ==> s[i].subnet != s[j].subnet
}

/// The selected routes of the table, in table order.
pub open spec fn selected_routes(s: Seq<SubnetEntry>) -> Seq<RouteEntry>
    decreases s.len(),
{
    if s.len() == 0 {
        Seq::<RouteEntry>::empty()
    } else {
        selected_routes(s.drop_last()) + (match s.last().selected {
            Some(e) => seq![e],
            None => Seq::<RouteEntry>::empty(),
        })
    }
}

/// The fallback routes of the table, in table order.
pub open spec fn fallback_routes(s: Seq<SubnetEntry>) -> Seq<RouteEntry>
    decreases s.len(),
{
    if s.len() == 0 {
        Seq::<RouteEntry>::empty()
    } else {
        fallback_routes(s.drop_last()) + (match s.last().fallback {
            Some(e) => seq![e],
            None => Seq::<RouteEntry>::empty(),
        })
    }
}

/// The Updates re-advertising every selected route learned from a peer
/// other than `exclude`, in table order, with the learned sequence numbers
/// and metrics unchanged.
pub open spec fn transit_adverts(s: Seq<SubnetEntry>, exclude: u64, interval: u16) -> Seq<
    ControlPacket,
>
    decreases s.len(),
{
    if s.len() == 0 {
        Seq::<ControlPacket>::empty()
    } else {
        transit_adverts(s.drop_last(), exclude, interval) + (match s.last().selected {
            Some(e) => if e.neighbour != exclude {
                seq![
                    ControlPacket::Update(
                        Update {
                            interval,
                            seqno: e.seqno,
                            metric: e.metric,
                            subnet: e.subnet,
                            router_id: e.router_id,
                        },
                    ),
                ]
            } else {
                Seq::<ControlPacket>::empty()
            },
            None => Seq::<ControlPacket>::empty(),
        })
    }
}

/// The slot with every route through `neighbour` dropped and the fallback
/// promoted if the selected route went.
pub open spec fn drop_neighbour(e: SubnetEntry, neighbour: u64) -> SubnetEntry {
    let sel = match e.selected {
        None => None,
        Some(s) => if s.neighbour == neighbour {
            None
        } else {
            Some(s)
        },
    };
    let fb = match e.fallback {
        None => None,
        Some(f) => if f.neighbour == neighbour {
            None
        } else {
            Some(f)
        },
    };
    match sel {
        Some(_) => SubnetEntry { subnet: e.subnet, selected: sel, fallback: fb, retracted: e.retracted },
        None => SubnetEntry { subnet: e.subnet, selected: fb, fallback: None, retracted: e.retracted },
    }
}

/// The routing engine: this node's identity and own subnet, the sequence
/// number it originates advertisements with, and the route table.
#[derive(Debug)]
pub struct Router {
    /// Identity this node originates routes under.
    pub router_id: RouterId,
    /// The locally originated subnet this node advertises as its own.
    pub node_subnet: Subnet,
    /// Sequence number for self-originated advertisements.
    pub own_seqno: SeqNo,
    /// One slot per known subnet.
    pub table: Vec<SubnetEntry>,
}

/// Well-formed router: the own subnet is well-formed, subnets appear at
/// most once, and every slot is well-formed.
pub open spec fn router_wf(r: Router) -> bool {
    &&& subnet_wf(r.node_subnet)
    &&& subnets_unique(r.table@)
    &&& forall|i: int| 0 <= i < r.table@.len() ==> subnet_entry_wf(#[trigger] r.table@[i])
}

impl Router {
    /// A fresh router with an empty table.
    pub fn new(router_id: RouterId, node_subnet: Subnet) -> (r: Router)
        requires
            subnet_wf(node_subnet),
        ensures
            r.router_id == router_id,
            r.node_subnet == node_subnet,
            r.own_seqno == SeqNo(0),
            r.table@ =~= Seq::<SubnetEntry>::empty(),
            router_wf(r),
    {
        Router { router_id, node_subnet, own_seqno: SeqNo(0), table: Vec::new() }
    }

    /// The locally originated subnet this node advertises as its own.
    pub fn node_tun_subnet(&self) -> (r: Subnet)
        ensures
            r == self.node_subnet,
    {
        self.node_subnet
    }

    /// Index of the slot about `sub`, if any.
    fn find_entry(&self, sub: Subnet) -> (r: Option<usize>)
        ensures
            match r {
                Some(i) => i < self.table@.len() && self.table@[i as int].subnet == sub,
                None => !has_subnet(self.table@, sub),
            },
    {
        let mut i: usize = 0;
        while i < self.table.len()
            invariant
                i <= self.table@.len(),
                forall|j: int| 0 <= j < i ==> self.table@[j].subnet != sub,
            decreases self.table@.len() - i,
        {
            if self.table[i].subnet == sub {
                return Some(i);
            }
            i = i + 1;
        }
        None
    }
}

/// Exec form of the feasibility rule.
fn entry_feasible_exec(retracted: Option<SeqNo>, seqno: SeqNo) -> (r: bool)
    ensures
        r == entry_feasible(retracted, seqno),
{
    match retracted {
        None => true,
        Some(b) => b.newer(seqno),
    }
}

/// Exec form of the candidate preference.
fn prefer_exec(c: &RouteEntry, s: &RouteEntry) -> (r: bool)
    ensures
        r == prefer(*c, *s),
{
    c.metric.lt(s.metric) || (c.metric == s.metric && s.seqno.newer(c.seqno))
}

/// Exec form of one slot transition.
fn subnet_transition_exec(e: SubnetEntry, u: &Update, neighbour: u64, cost: Metric) -> (r:
    SubnetEntry)
    ensures
        r == subnet_transition(e, *u, neighbour, cost),
{
    if u.metric.is_infinite() {
        // Retraction.
        let bound = match e.retracted {
            None => u.seqno,
            Some(b) => if b.newer(u.seqno) {
                u.seqno
            } else {
                b
            },
        };
        let sel = match e.selected {
            None => None,
            Some(s) => if bound.newer(s.seqno) {
                Some(s)
            } else {
                None
            },
        };
        let fb = match e.fallback {
            None => None,
            Some(f) => if bound.newer(f.seqno) {
                Some(f)
            } else {
                None
            },
        };
        match sel {
            Some(_) => SubnetEntry {
                subnet: e.subnet,
                selected: sel,
                fallback: fb,
                retracted: Some(bound),
            },
            None => SubnetEntry {
                subnet: e.subnet,
                selected: fb,
                fallback: None,
                retracted: Some(bound),
            },
        }
    } else {
        let cm = u.metric.saturating_add(cost);
        if cm.is_infinite() {
            e
        } else if !entry_feasible_exec(e.retracted, u.seqno) {
            e
        } else {
            let c = RouteEntry {
                subnet: u.subnet,
                router_id: u.router_id,
                seqno: u.seqno,
                metric: cm,
                neighbour,
            };
            match e.selected {
                None => SubnetEntry {
                    subnet: e.subnet,
                    selected: Some(c),
                    fallback: None,
                    retracted: e.retracted,
                },
                Some(s) => {
                    if c.neighbour == s.neighbour {
                        match e.fallback {
                            None => SubnetEntry {
                                subnet: e.subnet,
                                selected: Some(c),
                                fallback: None,
                                retracted: e.retracted,
                            },
                            Some(f) => if prefer_exec(&f, &c) {
                                SubnetEntry {
                                    subnet: e.subnet,
                                    selected: Some(f),
                                    fallback: Some(c),
                                    retracted: e.retracted,
                                }
                            } else {
                                SubnetEntry {
                                    subnet: e.subnet,
                                    selected: Some(c),
                                    fallback: Some(f),
                                    retracted: e.retracted,
                                }
                            },
                        }
                    } else {
                        match e.fallback {
                            Some(f) => if c.neighbour == f.neighbour {
                                if prefer_exec(&c, &s) {
                                    SubnetEntry {
                                        subnet: e.subnet,
                                        selected: Some(c),
                                        fallback: Some(s),
                                        retracted: e.retracted,
                                    }
                                } else {
                                    SubnetEntry {
                                        subnet: e.subnet,
                                        selected: Some(s),
                                        fallback: Some(c),
                                        retracted: e.retracted,
                                    }
                                }
                            } else {
                                if prefer_exec(&c, &s) {
                                    let demoted = if prefer_exec(&s, &f) {
                                        s
                                    } else {
                                        f
                                    };
                                    SubnetEntry {
                                        subnet: e.subnet,
                                        selected: Some(c),
                                        fallback: Some(demoted),
                                        retracted: e.retracted,
                                    }
                                } else if prefer_exec(&c, &f) {
                                    SubnetEntry {
                                        subnet: e.subnet,
                                        selected: Some(s),
                                        fallback: Some(c),
                                        retracted: e.retracted,
                                    }
                                } else {
                                    e
                                }
                            },
                            None => if prefer_exec(&c, &s) {
                                SubnetEntry {
                                    subnet: e.subnet,
                                    selected: Some(c),
                                    fallback: Some(s),
                                    retracted: e.retracted,
                                }
                            } else {
                                SubnetEntry {
                                    subnet: e.subnet,
                                    selected: Some(s),
                                    fallback: Some(c),
                                    retracted: e.retracted,
                                }
                            },
                        }
                    }
                },
            }
        }
    }
}


impl Router {
    /// Apply one received route advertisement (Babel route learning).
    ///
    /// The advertised metric plus the cost of the learning link is the
    /// candidate metric, saturating at infinite. An infinite advertisement
    /// is a retraction of the subnet. A finite candidate is folded into the
    /// subnet's slot only when it is feasible; infeasible or unusable
    /// (infinite-cost) advertisements leave the table unchanged. The result
    /// asks for a split-horizon re-advertisement of the subnet whenever the
    /// advertisement took effect on the table.
    pub fn handle_update(&mut self, neighbour: u64, cost: Metric, u: &Update) -> (r: Option<
        Readvertise,
    >)
        requires
            router_wf(*old(self)),
            subnet_wf(u.subnet),
        ensures
            router_wf(*final(self)),
            final(self).router_id == old(self).router_id,
            final(self).node_subnet == old(self).node_subnet,
            final(self).own_seqno == old(self).own_seqno,
            r matches Some(a) ==> a.subnet == u.subnet && a.exclude == neighbour,
            !has_subnet(old(self).table@, u.subnet) && (u.metric is Infinite || metric_add(
                u.metric,
                cost,
            ) is Infinite) ==> final(self).table@ == old(self).table@ && r is None,
            !has_subnet(old(self).table@, u.subnet) && !(u.metric is Infinite) && !(metric_add(
                u.metric,
                cost,
            ) is Infinite) ==> final(self).table@ == old(self).table@.push(
                fresh_entry(*u, neighbour, cost),
            ) && r is Some,
            forall|i: int|
                0 <= i < old(self).table@.len() && (#[trigger] old(self).table@[i]).subnet
                    == u.subnet ==> final(self).table@ == old(self).table@.update(
                    i,
                    subnet_transition(old(self).table@[i], *u, neighbour, cost),
                ) && (r is Some <==> update_engaged(old(self).table@[i], *u, cost)),
    {
        match self.find_entry(u.subnet) {
            None => {
                if u.metric.is_infinite() {
                    // A retraction of a subnet the table does not hold says
                    // nothing new.
                    None
                } else {
                    let cm = u.metric.saturating_add(cost);
                    if cm.is_infinite() {
                        None
                    } else {
                        let entry = SubnetEntry {
                            subnet: u.subnet,
                            selected: Some(
                                RouteEntry {
                                    subnet: u.subnet,
                                    router_id: u.router_id,
                                    seqno: u.seqno,
                                    metric: cm,
                                    neighbour,
                                },
                            ),
                            fallback: None,
                            retracted: None,
                        };
                        self.table.push(entry);
                        proof {
                            let oldt = old(self).table@;
                            let newt = self.table@;
                            assert forall|i: int, j: int|
                                0 <= i < j < newt.len() implies newt[i].subnet
                                != newt[j].subnet by {
                                if j < oldt.len() {
                                } else {
                                    assert(newt[j].subnet == u.subnet);
                                    assert(!has_subnet(oldt, u.subnet));
                                }
                            }
                            assert forall|i: int|
                                0 <= i < newt.len() implies subnet_entry_wf(
                                #[trigger] newt[i],
                            ) by {
                                if i < oldt.len() {
                                    assert(newt[i] == oldt[i]);
                                }
                            }
                        }
                        Some(Readvertise { subnet: u.subnet, exclude: neighbour })
                    }
                }
            },
            Some(i) => {
                let e = self.table[i];
                let engaged = if u.metric.is_infinite() {
                    true
                } else {
                    !u.metric.saturating_add(cost).is_infinite() && entry_feasible_exec(
                        e.retracted,
                        u.seqno,
                    )
                };
                let new_e = subnet_transition_exec(e, u, neighbour, cost);
                self.table.set(i, new_e);
                proof {
                    let oldt = old(self).table@;
                    let newt = self.table@;
                    lemma_transition_preserves_wf(oldt[i as int], *u, neighbour, cost);
                    assert forall|k: int|
                        0 <= k < oldt.len() && (#[trigger] oldt[k]).subnet == u.subnet implies k
                        == i by {}
                    assert forall|k: int|
                        0 <= k < newt.len() implies subnet_entry_wf(#[trigger] newt[k]) by {
                        if k != i {
                            assert(newt[k] == oldt[k]);
                        }
                    }
                    assert forall|a: int, b: int|
                        0 <= a < b < newt.len() implies newt[a].subnet != newt[b].subnet by {
                        assert(newt[a].subnet == oldt[a].subnet);
                        assert(newt[b].subnet == oldt[b].subnet);
                    }
                }
                if engaged {
                    Some(Readvertise { subnet: u.subnet, exclude: neighbour })
                } else {
                    None
                }
            },
        }
    }

    /// Snapshot of all selected routes, one consistent point in time.
    pub fn load_selected_routes(&self) -> (r: Vec<RouteEntry>)
        ensures
            r@ == selected_routes(self.table@),
    {
        let mut out: Vec<RouteEntry> = Vec::new();
        let mut i: usize = 0;
        while i < self.table.len()
            invariant
                i <= self.table@.len(),
                out@ == selected_routes(self.table@.subrange(0, i as int)),
            decreases self.table@.len() - i,
        {
            let ghost prefix = self.table@.subrange(0, i as int + 1);
            match self.table[i].selected {
                Some(e) => out.push(e),
                None => {},
            }
            proof {
                assert(prefix.drop_last() =~= self.table@.subrange(0, i as int));
                assert(prefix.last() == self.table@[i as int]);
            }
            i = i + 1;
        }
        proof {
            assert(self.table@.subrange(0, self.table@.len() as int) =~= self.table@);
        }
        out
    }

    /// Snapshot of all fallback routes, one consistent point in time.
    pub fn load_fallback_routes(&self) -> (r: Vec<RouteEntry>)
        ensures
            r@ == fallback_routes(self.table@),
    {
        let mut out: Vec<RouteEntry> = Vec::new();
        let mut i: usize = 0;
        while i < self.table.len()
            invariant
                i <= self.table@.len(),
                out@ == fallback_routes(self.table@.subrange(0, i as int)),
            decreases self.table@.len() - i,
        {
            let ghost prefix = self.table@.subrange(0, i as int + 1);
            match self.table[i].fallback {
                Some(e) => out.push(e),
                None => {},
            }
            proof {
                assert(prefix.drop_last() =~= self.table@.subrange(0, i as int));
                assert(prefix.last() == self.table@[i as int]);
            }
            i = i + 1;
        }
        proof {
            assert(self.table@.subrange(0, self.table@.len() as int) =~= self.table@);
        }
        out
    }

    /// The advertisements for one peer: first this node's own subnet under
    /// a freshly incremented own sequence number, then every selected route
    /// not learned from that very peer (split-horizon), with learned
    /// sequence numbers and metrics unchanged. Every packet is well-formed
    /// and ready to encode.
    pub fn advertise_all(&mut self, peer: u64, interval: u16) -> (r: Vec<ControlPacket>)
        requires
            router_wf(*old(self)),
        ensures
            router_wf(*final(self)),
            final(self).router_id == old(self).router_id,
            final(self).node_subnet == old(self).node_subnet,
            final(self).table@ == old(self).table@,
            final(self).own_seqno == SeqNo(seqno_next(old(self).own_seqno.0)),
            r@ == seq![
                ControlPacket::Update(
                    Update {
                        interval,
                        seqno: SeqNo(seqno_next(old(self).own_seqno.0)),
                        metric: Metric::Value(0),
                        subnet: old(self).node_subnet,
                        router_id: old(self).router_id,
                    },
                ),
            ] + transit_adverts(old(self).table@, peer, interval),
            forall|k: int| 0 <= k < r@.len() ==> crate::codec::packet_wf((#[trigger] r@[k])@),
    {
        self.own_seqno = self.own_seqno.next();
        let mut out: Vec<ControlPacket> = Vec::new();
        out.push(
            ControlPacket::Update(
                Update {
                    interval,
                    seqno: self.own_seqno,
                    metric: Metric::Value(0),
                    subnet: self.node_subnet,
                    router_id: self.router_id,
                },
            ),
        );
        let ghost own = out@[0];
        let mut i: usize = 0;
        while i < self.table.len()
            invariant
                i <= self.table@.len(),
                out@ == seq![own] + transit_adverts(self.table@.subrange(0, i as int), peer, interval),
                forall|k: int| 0 <= k < out@.len() ==> crate::codec::packet_wf((#[trigger] out@[k])@),
                router_wf(*self),
                own == ControlPacket::Update(
                    Update {
                        interval,
                        seqno: self.own_seqno,
                        metric: Metric::Value(0),
                        subnet: self.node_subnet,
                        router_id: self.router_id,
                    },
                ),
            decreases self.table@.len() - i,
        {
            let ghost prefix = self.table@.subrange(0, i as int + 1);
            match self.table[i].selected {
                Some(e) => {
                    if e.neighbour != peer {
                        out.push(
                            ControlPacket::Update(
                                Update {
                                    interval,
                                    seqno: e.seqno,
                                    metric: e.metric,
                                    subnet: e.subnet,
                                    router_id: e.router_id,
                                },
                            ),
                        );
                    }
                },
                None => {},
            }
            proof {
                assert(prefix.drop_last() =~= self.table@.subrange(0, i as int));
                assert(prefix.last() == self.table@[i as int]);
                assert(out@ =~= seq![own] + transit_adverts(prefix, peer, interval));
            }
            i = i + 1;
        }
        proof {
            assert(self.table@.subrange(0, self.table@.len() as int) =~= self.table@);
        }
        out
    }

    /// The selected route whose subnet contains `dest`, if the table holds
    /// one: the destination is reachable exactly when this is `Some`.
    pub fn route_to(&self, dest: Addr) -> (r: Option<RouteEntry>)
        requires
            router_wf(*self),
        ensures
            r matches Some(e) ==> (exists|i: int|
                0 <= i < self.table@.len() && (#[trigger] self.table@[i]).selected == Some(e))
                && subnet_contains(e.subnet, dest),
            r is None ==> forall|i: int|
                0 <= i < self.table@.len() ==> ((#[trigger] self.table@[i]).selected matches Some(s)
                    ==> !subnet_contains(s.subnet, dest)),
            r is Some <==> reachable(self.table@, dest),
    {
        let mut i: usize = 0;
        while i < self.table.len()
            invariant
                i <= self.table@.len(),
                router_wf(*self),
                forall|j: int|
                    0 <= j < i ==> ((#[trigger] self.table@[j]).selected matches Some(s)
                        ==> !subnet_contains(s.subnet, dest)),
            decreases self.table@.len() - i,
        {
            match self.table[i].selected {
                Some(e) => {
                    if e.subnet.contains(dest) {
                        return Some(e);
                    }
                },
                None => {},
            }
            i = i + 1;
        }
        None
    }

    /// Drop every route learned from a peer whose link is gone, promoting
    /// fallback routes where the selected route went through that peer.
    pub fn remove_peer_routes(&mut self, neighbour: u64)
        requires
            router_wf(*old(self)),
        ensures
            router_wf(*final(self)),
            final(self).router_id == old(self).router_id,
            final(self).node_subnet == old(self).node_subnet,
            final(self).own_seqno == old(self).own_seqno,
            final(self).table@.len() == old(self).table@.len(),
            forall|i: int|
                0 <= i < old(self).table@.len() ==> final(self).table@[i] == drop_neighbour(
                    #[trigger] old(self).table@[i],
                    neighbour,
                ),
    {
        let mut i: usize = 0;
        while i < self.table.len()
            invariant
                i <= self.table@.len(),
                self.table@.len() == old(self).table@.len(),
                self.router_id == old(self).router_id,
                self.node_subnet == old(self).node_subnet,
                self.own_seqno == old(self).own_seqno,
                router_wf(*old(self)),
                forall|j: int|
                    i <= j < self.table@.len() ==> self.table@[j] == old(self).table@[j],
                forall|j: int|
                    0 <= j < i ==> self.table@[j] == drop_neighbour(
                        #[trigger] old(self).table@[j],
                        neighbour,
                    ),
                forall|j: int|
                    0 <= j < self.table@.len() ==> (#[trigger] self.table@[j]).subnet == old(
                        self,
                    ).table@[j].subnet,
                forall|j: int|
                    0 <= j < self.table@.len() ==> subnet_entry_wf(#[trigger] self.table@[j]),
            decreases self.table@.len() - i,
        {
            let e = self.table[i];
            let sel = match e.selected {
                None => None,
                Some(s) => if s.neighbour == neighbour {
                    None
                } else {
                    Some(s)
                },
            };
            let fb = match e.fallback {
                None => None,
                Some(f) => if f.neighbour == neighbour {
                    None
                } else {
                    Some(f)
                },
            };
            let new_e = match sel {
                Some(_) => SubnetEntry {
                    subnet: e.subnet,
                    selected: sel,
                    fallback: fb,
                    retracted: e.retracted,
                },
                None => SubnetEntry {
                    subnet: e.subnet,
                    selected: fb,
                    fallback: None,
                    retracted: e.retracted,
                },
            };
            self.table.set(i, new_e);
            i = i + 1;
        }
        proof {
            assert forall|a: int, b: int|
                0 <= a < b < self.table@.len() implies self.table@[a].subnet
                != self.table@[b].subnet by {
                assert(self.table@[a].subnet == old(self).table@[a].subnet);
                assert(self.table@[b].subnet == old(self).table@[b].subnet);
            }
        }
    }
}

} // verus!
