//! Reliable delivery of opaque application messages.
//!
//! A submitted message is retried by the caller's timer loop until its
//! deadline passes or the remote end acknowledges it; the stack holds the
//! bookkeeping and makes the decisions. Received messages land in an inbox
//! that can be peeked at or popped with an optional topic filter; a message
//! that answers a pending submission made with a reply subscription is
//! routed to that subscription instead of the inbox, and is handed over at
//! most once.

use vstd::prelude::*;

use crate::codec::RouterId;
use crate::router::{reachable, Router};
use crate::subnet::Addr;

verus! {

/// Unique identifier of a submitted or received message.
#[derive(Clone, Copy, Debug, PartialEq, Eq, Structural)]
pub struct MessageId(pub u64);

/// Delivery state of a submitted message.
#[derive(Clone, Copy, Debug, PartialEq, Eq, Structural)]
pub enum DeliveryState {
    /// Still being retried.
    Pending,
    /// Acknowledged by the destination.
    Delivered,
    /// The retry deadline passed without an acknowledgement.
    Failed,
}

/// Point-in-time delivery status of a submitted message.
#[derive(Clone, Copy, Debug, PartialEq, Eq, Structural)]
pub struct MessageInfo {
    /// Where delivery stands.
    pub state: DeliveryState,
    /// The time until which delivery is attempted.
    pub deadline: u64,
}

/// Submitting a message failed.
#[derive(Clone, Copy, Debug, PartialEq, Eq, Structural)]
pub enum SubmitError {
    /// The destination cannot be resolved to any route at submission time.
    Unreachable,
}

/// One-shot handle correlating a future reply to a submission.
#[derive(Clone, Copy, Debug, PartialEq, Eq, Structural)]
pub struct ReplySubscription {
    /// Identifier of the submission a reply is awaited for.
    pub id: MessageId,
}

/// Bookkeeping of one submitted message.
#[derive(Debug)]
pub struct OutboundMessage {
    /// Identifier of the submission.
    pub id: MessageId,
    /// Overlay address of the destination.
    pub dst: Addr,
    /// Topic tag, empty for none.
    pub topic: Vec<u8>,
    /// The opaque payload.
    pub payload: Vec<u8>,
    /// The time until which delivery is attempted.
    pub deadline: u64,
    /// Where delivery stands.
    pub state: DeliveryState,
    /// A reply is awaited for this message.
    pub await_reply: bool,
    /// The submission this message answers, if it is a reply.
    pub reply_to: Option<MessageId>,
}

/// One received application message.
#[derive(Debug, PartialEq, Eq)]
pub struct ReceivedMessage {
    /// Identifier carried by the message; a reply carries the identifier of
    /// the submission it answers.
    pub id: MessageId,
    /// Overlay address of the sender.
    pub src_ip: Addr,
    /// Identity of the sender.
    pub src_pk: RouterId,
    /// Overlay address of the receiving node.
    pub dst_ip: Addr,
    /// Identity of the receiving node.
    pub dst_pk: RouterId,
    /// Topic tag, empty for none.
    pub topic: Vec<u8>,
    /// The opaque payload.
    pub data: Vec<u8>,
}

/// Field-wise equality of received messages, byte contents compared as
/// sequences.
pub open spec fn msg_eq(a: ReceivedMessage, b: ReceivedMessage) -> bool {
    &&& a.id == b.id
    &&& a.src_ip == b.src_ip
    &&& a.src_pk == b.src_pk
    &&& a.dst_ip == b.dst_ip
    &&& a.dst_pk == b.dst_pk
    &&& a.topic@ == b.topic@
    &&& a.data@ == b.data@
}

/// The submission moved to the given delivery state and all else unchanged.
pub open spec fn with_delivery_state(m: OutboundMessage, state: DeliveryState) -> OutboundMessage {
    OutboundMessage {
        id: m.id,
        dst: m.dst,
        topic: m.topic,
        payload: m.payload,
        deadline: m.deadline,
        state,
        await_reply: m.await_reply,
        reply_to: m.reply_to,
    }
}

/// The message matches the filter: no filter, or the same topic bytes.
pub open spec fn topic_matches(m: ReceivedMessage, filter: Option<Vec<u8>>) -> bool {
    match filter {
        None => true,
        Some(t) => m.topic@ == t@,
    }
}

/// Some submission in `s` carries the identifier `id`.
pub open spec fn has_outbound(s: Seq<OutboundMessage>, id: MessageId) -> bool {
    exists|i: int| 0 <= i < s.len() && s[i].id == id
}

/// Some submission in `s` awaits a reply under the identifier `id`.
pub open spec fn has_reply_waiter(s: Seq<OutboundMessage>, id: MessageId) -> bool {
    exists|i: int| 0 <= i < s.len() && s[i].id == id && s[i].await_reply
}

/// Identifiers of submissions are unique and below the next fresh one.
pub open spec fn message_stack_wf(s: MessageStack) -> bool {
    &&& forall|i: int| 0 <= i < s.outbound@.len() ==> (#[trigger] s.outbound@[i]).id.0 < s.next_id
    &&& forall|i: int, j: int|
        0 <= i < j < s.outbound@.len() ==> s.outbound@[i].id != s.outbound@[j].id
}

/// Reliable application-message delivery: submissions being retried, the
/// inbox of received messages, and replies parked for their subscriptions.
#[derive(Debug)]
pub struct MessageStack {
    /// Submitted messages and their delivery bookkeeping.
    pub outbound: Vec<OutboundMessage>,
    /// Received messages awaiting a `message` call, oldest first.
    pub inbox: Vec<ReceivedMessage>,
    /// Replies awaiting their subscription, oldest first.
    pub replies: Vec<ReceivedMessage>,
    /// The next fresh message identifier.
    pub next_id: u64,
}

/// Copy a byte vector.
fn copy_bytes(a: &Vec<u8>) -> (r: Vec<u8>)
    ensures
        r@ == a@,
{
    let mut out: Vec<u8> = Vec::new();
    let mut i: usize = 0;
    while i < a.len()
        invariant
            i <= a@.len(),
            out@ == a@.subrange(0, i as int),
        decreases a@.len() - i,
    {
        out.push(a[i]);
        assert(out@ =~= a@.subrange(0, i as int + 1));
        i = i + 1;
    }
    proof {
        assert(a@.subrange(0, a@.len() as int) =~= a@);
    }
    out
}

/// Copy a received message.
fn copy_message(m: &ReceivedMessage) -> (r: ReceivedMessage)
    ensures
        msg_eq(r, *m),
{
    ReceivedMessage {
        id: m.id,
        src_ip: m.src_ip,
        src_pk: m.src_pk,
        dst_ip: m.dst_ip,
        dst_pk: m.dst_pk,
        topic: copy_bytes(&m.topic),
        data: copy_bytes(&m.data),
    }
}

/// Byte-wise equality of two vectors.
fn bytes_eq(a: &Vec<u8>, b: &Vec<u8>) -> (r: bool)
    ensures
        r == (a@ == b@),
{
    if a.len() != b.len() {
        return false;
    }
    let mut i: usize = 0;
    while i < a.len()
        invariant
            i <= a@.len(),
            a@.len() == b@.len(),
            forall|j: int| 0 <= j < i ==> a@[j] == b@[j],
        decreases a@.len() - i,
    {
        if a[i] != b[i] {
            return false;
        }
        i = i + 1;
    }
    proof {
        assert(a@ =~= b@);
    }
    true
}

impl MessageStack {
    /// An empty message stack.
    pub fn new() -> (r: MessageStack)
        ensures
            r.outbound@ =~= Seq::<OutboundMessage>::empty(),
            r.inbox@ =~= Seq::<ReceivedMessage>::empty(),
            r.replies@ =~= Seq::<ReceivedMessage>::empty(),
            r.next_id == 0,
            message_stack_wf(r),
    {
        MessageStack { outbound: Vec::new(), inbox: Vec::new(), replies: Vec::new(), next_id: 0 }
    }

    /// Index of the submission with identifier `id`, if any.
    fn find_outbound(&self, id: MessageId) -> (r: Option<usize>)
        ensures
            match r {
                Some(i) => i < self.outbound@.len() && self.outbound@[i as int].id == id,
                None => !has_outbound(self.outbound@, id),
            },
    {
        let mut i: usize = 0;
        while i < self.outbound.len()
            invariant
                i <= self.outbound@.len(),
                forall|j: int| 0 <= j < i ==> self.outbound@[j].id != id,
            decreases self.outbound@.len() - i,
        {
            if self.outbound[i].id.0 == id.0 {
                return Some(i);
            }
            i = i + 1;
        }
        None
    }

    /// Submit a message for retried delivery until `try_duration` time
    /// units after `now`. Fails with `Unreachable`, changing nothing, if
    /// and only if the route table resolves no route to the destination at
    /// submission time (a best-effort check, not a delivery guarantee).
    /// On success the fresh identifier is returned, together with a reply
    /// subscription exactly when one was asked for.
    pub fn new_message(
        &mut self,
        router: &Router,
        now: u64,
        dst: Addr,
        payload: Vec<u8>,
        topic: Vec<u8>,
        try_duration: u64,
        await_reply: bool,
    ) -> (r: Result<(MessageId, Option<ReplySubscription>), SubmitError>)
        requires
            message_stack_wf(*old(self)),
            crate::router::router_wf(*router),
            old(self).next_id < u64::MAX,
        ensures
            message_stack_wf(*final(self)),
            final(self).inbox@ == old(self).inbox@,
            final(self).replies@ == old(self).replies@,
            match r {
                Err(e) => {
                    &&& e is Unreachable
                    &&& !reachable(router.table@, dst)
                    &&& final(self).outbound@ == old(self).outbound@
                    &&& final(self).next_id == old(self).next_id
                },
                Ok(pair) => {
                    &&& reachable(router.table@, dst)
                    &&& pair.0 == MessageId(old(self).next_id)
                    &&& final(self).next_id == old(self).next_id + 1
                    &&& final(self).outbound@.len() == old(self).outbound@.len() + 1
                    &&& final(self).outbound@.subrange(0, old(self).outbound@.len() as int) == old(self).outbound@
                    &&& ({
                        let m = final(self).outbound@.last();
                        &&& m.id == pair.0
                        &&& m.dst == dst
                        &&& m.topic@ == topic@
                        &&& m.payload@ == payload@
                        &&& m.deadline == if now + try_duration <= u64::MAX {
                            now + try_duration
                        } else {
                            u64::MAX as int
                        }
                        &&& m.state is Pending
                        &&& m.await_reply == await_reply
                        &&& m.reply_to is None
                    })
                    &&& pair.1 == if await_reply {
                        Some(ReplySubscription { id: pair.0 })
                    } else {
                        None::<ReplySubscription>
                    }
                },
            },
    {
        if router.route_to(dst).is_none() {
            return Err(SubmitError::Unreachable);
        }
        let id = MessageId(self.next_id);
        self.next_id = self.next_id + 1;
        self.outbound.push(
            OutboundMessage {
                id,
                dst,
                topic,
                payload,
                deadline: now.saturating_add(try_duration),
                state: DeliveryState::Pending,
                await_reply,
                reply_to: None,
            },
        );
        let sub = if await_reply {
            Some(ReplySubscription { id })
        } else {
            None
        };
        Ok((id, sub))
    }

    /// Submit a reply correlated to the original submission `id`. Delivery
    /// works as for `new_message`, but by design there is no
    /// unreachable-destination pre-check: the reply is always accepted for
    /// best-effort delivery.
    pub fn reply_message(
        &mut self,
        id: MessageId,
        now: u64,
        dst: Addr,
        payload: Vec<u8>,
        try_duration: u64,
    )
        requires
            message_stack_wf(*old(self)),
            old(self).next_id < u64::MAX,
        ensures
            message_stack_wf(*final(self)),
            final(self).inbox@ == old(self).inbox@,
            final(self).replies@ == old(self).replies@,
            final(self).next_id == old(self).next_id + 1,
            final(self).outbound@.len() == old(self).outbound@.len() + 1,
            final(self).outbound@.subrange(0, old(self).outbound@.len() as int) == old(self).outbound@,
            ({
                let m = final(self).outbound@.last();
                &&& m.id == MessageId(old(self).next_id)
                &&& m.dst == dst
                &&& m.topic@.len() == 0
                &&& m.payload@ == payload@
                &&& m.deadline == if now + try_duration <= u64::MAX {
                    now + try_duration
                } else {
                    u64::MAX as int
                }
                &&& m.state is Pending
                &&& !m.await_reply
                &&& m.reply_to == Some(id)
            }),
    {
        let fresh = MessageId(self.next_id);
        self.next_id = self.next_id + 1;
        self.outbound.push(
            OutboundMessage {
                id: fresh,
                dst,
                topic: Vec::new(),
                payload,
                deadline: now.saturating_add(try_duration),
                state: DeliveryState::Pending,
                await_reply: false,
                reply_to: Some(id),
            },
        );
    }

    /// The next received message matching the filter, oldest first: popped
    /// from the inbox when `pop` is set, left in place for a later call
    /// otherwise. `None` when no matching message is waiting (the caller
    /// suspends and retries).
    pub fn message(&mut self, pop: bool, topic: Option<Vec<u8>>) -> (r: Option<ReceivedMessage>)
        ensures
            final(self).outbound@ == old(self).outbound@,
            final(self).replies@ == old(self).replies@,
            final(self).next_id == old(self).next_id,
            match r {
                None => {
                    &&& final(self).inbox@ == old(self).inbox@
                    &&& forall|j: int|
                        0 <= j < old(self).inbox@.len() ==> !topic_matches(
                            #[trigger] old(self).inbox@[j],
                            topic,
                        )
                },
                Some(m) => {
                    exists|j: int|
                        {
                            &&& 0 <= j < old(self).inbox@.len()
                            &&& topic_matches(#[trigger] old(self).inbox@[j], topic)
                            &&& forall|k: int|
                                0 <= k < j ==> !topic_matches(#[trigger] old(self).inbox@[k], topic)
                            &&& msg_eq(m, old(self).inbox@[j])
                            &&& final(self).inbox@ == if pop {
                                old(self).inbox@.remove(j)
                            } else {
                                old(self).inbox@
                            }
                        }
                },
            },
    {
        let mut i: usize = 0;
        while i < self.inbox.len()
            invariant
                i <= self.inbox@.len(),
                self.inbox@ == old(self).inbox@,
                self.outbound@ == old(self).outbound@,
                self.replies@ == old(self).replies@,
                self.next_id == old(self).next_id,
                forall|k: int| 0 <= k < i ==> !topic_matches(#[trigger] self.inbox@[k], topic),
            decreases self.inbox@.len() - i,
        {
            let matches_here = match &topic {
                None => true,
                Some(t) => bytes_eq(&self.inbox[i].topic, t),
            };
            if matches_here {
                if pop {
                    let m = self.inbox.remove(i);
                    return Some(m);
                } else {
                    let m = copy_message(&self.inbox[i]);
                    return Some(m);
                }
            }
            i = i + 1;
        }
        None
    }

    /// Take in a message received from the network. A message answering a
    /// submission that awaits a reply is parked for that subscription;
    /// everything else joins the inbox, oldest first.
    pub fn push_received(&mut self, m: ReceivedMessage)
        ensures
            final(self).outbound@ == old(self).outbound@,
            final(self).next_id == old(self).next_id,
            has_reply_waiter(old(self).outbound@, m.id) ==> final(self).replies@ == old(self).replies@.push(m) && final(self).inbox@ == old(self).inbox@,
            !has_reply_waiter(old(self).outbound@, m.id) ==> final(self).inbox@ == old(self).inbox@.push(m) && final(self).replies@ == old(self).replies@,
    {
        let mut i: usize = 0;
        let mut waiter = false;
        while i < self.outbound.len()
            invariant
                i <= self.outbound@.len(),
                waiter == exists|j: int|
                    0 <= j < i && (#[trigger] self.outbound@[j]).id == m.id
                        && self.outbound@[j].await_reply,
            decreases self.outbound@.len() - i,
        {
            if self.outbound[i].id.0 == m.id.0 && self.outbound[i].await_reply {
                waiter = true;
            }
            i = i + 1;
        }
        if waiter {
            self.replies.push(m);
        } else {
            self.inbox.push(m);
        }
    }

    /// Hand out the reply parked for a subscription, at most once: the
    /// oldest reply carrying the subscription's identifier, removed from
    /// the stack. `None` while no reply has arrived.
    pub fn try_get_reply(&mut self, sub: &ReplySubscription) -> (r: Option<ReceivedMessage>)
        ensures
            final(self).outbound@ == old(self).outbound@,
            final(self).inbox@ == old(self).inbox@,
            final(self).next_id == old(self).next_id,
            match r {
                None => {
                    &&& final(self).replies@ == old(self).replies@
                    &&& forall|j: int|
                        0 <= j < old(self).replies@.len() ==> (#[trigger] old(self).replies@[j]).id != sub.id
                },
                Some(m) => {
                    exists|j: int|
                        {
                            &&& 0 <= j < old(self).replies@.len()
                            &&& (#[trigger] old(self).replies@[j]).id == sub.id
                            &&& forall|k: int|
                                0 <= k < j ==> (#[trigger] old(self).replies@[k]).id != sub.id
                            &&& msg_eq(m, old(self).replies@[j])
                            &&& final(self).replies@ == old(self).replies@.remove(j)
                        }
                },
            },
    {
        let mut i: usize = 0;
        while i < self.replies.len()
            invariant
                i <= self.replies@.len(),
                self.inbox@ == old(self).inbox@,
                self.outbound@ == old(self).outbound@,
                self.replies@ == old(self).replies@,
                self.next_id == old(self).next_id,
                forall|k: int| 0 <= k < i ==> (#[trigger] self.replies@[k]).id != sub.id,
            decreases self.replies@.len() - i,
        {
            if self.replies[i].id.0 == sub.id.0 {
                let m = self.replies.remove(i);
                return Some(m);
            }
            i = i + 1;
        }
        None
    }

    /// Point-in-time delivery status of a submission; `None` exactly for
    /// identifiers never returned by a submission.
    pub fn message_info(&self, id: MessageId) -> (r: Option<MessageInfo>)
        requires
            message_stack_wf(*self),
        ensures
            match r {
                None => !has_outbound(self.outbound@, id),
                Some(info) => exists|i: int|
                    0 <= i < self.outbound@.len() && (#[trigger] self.outbound@[i]).id == id && info
                        == (MessageInfo {
                        state: self.outbound@[i].state,
                        deadline: self.outbound@[i].deadline,
                    }),
            },
    {
        match self.find_outbound(id) {
            Some(i) => Some(
                MessageInfo { state: self.outbound[i].state, deadline: self.outbound[i].deadline },
            ),
            None => None,
        }
    }

    /// The destination acknowledged the submission: it is delivered, and
    /// its retries stop. Nothing changes for an unknown identifier or a
    /// submission no longer pending.
    pub fn mark_delivered(&mut self, id: MessageId)
        requires
            message_stack_wf(*old(self)),
        ensures
            message_stack_wf(*final(self)),
            final(self).inbox@ == old(self).inbox@,
            final(self).replies@ == old(self).replies@,
            final(self).next_id == old(self).next_id,
            final(self).outbound@.len() == old(self).outbound@.len(),
            forall|i: int|
                0 <= i < old(self).outbound@.len() && ((#[trigger] old(self).outbound@[i]).id != id
                    || !(old(self).outbound@[i].state is Pending)) ==> final(self).outbound@[i]
                    == old(self).outbound@[i],
            forall|i: int|
                0 <= i < old(self).outbound@.len() && (#[trigger] old(self).outbound@[i]).id == id
                    && old(self).outbound@[i].state is Pending ==> final(self).outbound@[i]
                    == with_delivery_state(old(self).outbound@[i], DeliveryState::Delivered),
    {
        let mut i: usize = 0;
        while i < self.outbound.len()
            invariant
                i <= self.outbound@.len(),
                self.outbound@.len() == old(self).outbound@.len(),
                self.inbox@ == old(self).inbox@,
                self.replies@ == old(self).replies@,
                self.next_id == old(self).next_id,
                message_stack_wf(*old(self)),
                forall|j: int|
                    0 <= j < self.outbound@.len() ==> (#[trigger] self.outbound@[j]).id == old(self).outbound@[j].id,
                forall|j: int|
                    i <= j < self.outbound@.len() ==> #[trigger] self.outbound@[j] == old(self).outbound@[j],
                forall|j: int|
                    0 <= j < i && ((#[trigger] old(self).outbound@[j]).id != id || !(old(self).outbound@[j].state is Pending)) ==> self.outbound@[j] == old(self).outbound@[j],
                forall|j: int|
                    0 <= j < i && (#[trigger] old(self).outbound@[j]).id == id && old(self).outbound@[j].state is Pending ==> self.outbound@[j] == with_delivery_state(
                        old(self).outbound@[j],
                        DeliveryState::Delivered,
                    ),
                message_stack_wf(*self),
            decreases self.outbound@.len() - i,
        {
            let pending = matches!(self.outbound[i].state, DeliveryState::Pending);
            if self.outbound[i].id.0 == id.0 && pending {
                let state = &mut self.outbound[i].state;
                *state = DeliveryState::Delivered;
            }
            i = i + 1;
        }
    }

    /// Let time pass: every submission still pending whose deadline lies
    /// before `now` becomes failed (its retry budget is exhausted); all
    /// else is untouched.
    pub fn check_deadlines(&mut self, now: u64)
        requires
            message_stack_wf(*old(self)),
        ensures
            message_stack_wf(*final(self)),
            final(self).inbox@ == old(self).inbox@,
            final(self).replies@ == old(self).replies@,
            final(self).next_id == old(self).next_id,
            final(self).outbound@.len() == old(self).outbound@.len(),
            forall|i: int|
                0 <= i < old(self).outbound@.len() && ((#[trigger] old(self).outbound@[i]).state is Pending && old(self).outbound@[i].deadline < now) ==> final(self).outbound@[i] == with_delivery_state(old(self).outbound@[i], DeliveryState::Failed),
            forall|i: int|
                0 <= i < old(self).outbound@.len() && !((#[trigger] old(self).outbound@[i]).state is Pending && old(self).outbound@[i].deadline < now) ==> final(self).outbound@[i] == old(self).outbound@[i],
    {
        let mut i: usize = 0;
        while i < self.outbound.len()
            invariant
                i <= self.outbound@.len(),
                self.outbound@.len() == old(self).outbound@.len(),
                self.inbox@ == old(self).inbox@,
                self.replies@ == old(self).replies@,
                self.next_id == old(self).next_id,
                message_stack_wf(*old(self)),
                forall|j: int|
                    0 <= j < self.outbound@.len() ==> (#[trigger] self.outbound@[j]).id == old(self).outbound@[j].id,
                forall|j: int|
                    i <= j < self.outbound@.len() ==> #[trigger] self.outbound@[j] == old(self).outbound@[j],
                forall|j: int|
                    0 <= j < i && ((#[trigger] old(self).outbound@[j]).state is Pending && old(self).outbound@[j].deadline < now) ==> self.outbound@[j] == with_delivery_state(
                        old(self).outbound@[j],
                        DeliveryState::Failed,
                    ),
                forall|j: int|
                    0 <= j < i && !((#[trigger] old(self).outbound@[j]).state is Pending && old(self).outbound@[j].deadline < now) ==> self.outbound@[j] == old(self).outbound@[j],
                message_stack_wf(*self),
            decreases self.outbound@.len() - i,
        {
            if matches!(self.outbound[i].state, DeliveryState::Pending) && self.outbound[i].deadline
                < now {
                let state = &mut self.outbound[i].state;
                *state = DeliveryState::Failed;
            }
            i = i + 1;
        }
    }
}

} // verus!
