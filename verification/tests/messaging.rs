use mycelium::api::{GetMessageQuery, PushMessageQuery};
use mycelium::codec::{RouterId, Update};
use mycelium::message::{
    DeliveryState, MessageId, MessageStack, ReceivedMessage, SubmitError,
};
use mycelium::metric::Metric;
use mycelium::router::Router;
use mycelium::seqno::SeqNo;
use mycelium::subnet::{Addr, Subnet};

fn test_router(with_route: bool) -> Router {
    let own = Subnet::new(Addr { hi: 0x0400_0000_0000_0001, lo: 0 }, 64);
    let mut router = Router::new(RouterId(0xbeef), own);
    if with_route {
        let s = Subnet::new(Addr { hi: 0x0200_0000_0000_0002, lo: 0 }, 64);
        router.handle_update(
            1,
            Metric::Value(1),
            &Update {
                interval: 60,
                seqno: SeqNo(5),
                metric: Metric::Value(3),
                subnet: s,
                router_id: RouterId(0xa),
            },
        );
    }
    router
}

fn dest_in_route() -> Addr {
    Addr { hi: 0x0200_0000_0000_0002, lo: 77 }
}

fn received(id: u64, topic: &[u8], data: &[u8]) -> ReceivedMessage {
    ReceivedMessage {
        id: MessageId(id),
        src_ip: Addr { hi: 1, lo: 1 },
        src_pk: RouterId(11),
        dst_ip: Addr { hi: 2, lo: 2 },
        dst_pk: RouterId(22),
        topic: topic.to_vec(),
        data: data.to_vec(),
    }
}

/// Submitting to an address with no existing route returns `Unreachable`
/// immediately, try duration 0 or not.
#[test]
fn unreachable_submission_fails_immediately() {
    let router = test_router(false);
    let mut stack = MessageStack::new();
    let r = stack.new_message(&router, 0, dest_in_route(), vec![1, 2], vec![], 0, false);
    assert_eq!(r, Err(SubmitError::Unreachable));
    assert_eq!(stack.message_info(MessageId(0)), None);
}

#[test]
fn reachable_submission_registers_the_message() {
    let router = test_router(true);
    let mut stack = MessageStack::new();
    let (id, sub) = stack
        .new_message(&router, 100, dest_in_route(), vec![1, 2], vec![9], 60, false)
        .expect("destination has a route");
    assert_eq!(id, MessageId(0));
    assert!(sub.is_none());
    let info = stack.message_info(id).expect("submitted message has a status");
    assert_eq!(info.state, DeliveryState::Pending);
    assert_eq!(info.deadline, 160);
}

/// Peeking hands out the message without consuming it: an immediate pop
/// returns the same message, and a third call finds the queue empty.
#[test]
fn peek_then_pop_return_the_same_message() {
    let mut stack = MessageStack::new();
    stack.push_received(received(40, b"", b"first"));

    let peeked = stack.message(false, None).expect("a message is waiting");
    let popped = stack.message(true, None).expect("the message is still waiting");
    assert_eq!(peeked.id, popped.id);
    assert_eq!(peeked.data, popped.data);
    assert_eq!(stack.message(true, None), None);
}

#[test]
fn topic_filter_selects_matching_messages() {
    let mut stack = MessageStack::new();
    stack.push_received(received(1, b"alpha", b"a"));
    stack.push_received(received(2, b"beta", b"b"));

    let m = stack.message(true, Some(b"beta".to_vec())).expect("a beta message waits");
    assert_eq!(m.id, MessageId(2));
    assert_eq!(stack.message(true, Some(b"beta".to_vec())), None);
    // The alpha message is still there for an unfiltered pop.
    let m = stack.message(true, None).expect("the alpha message is left");
    assert_eq!(m.id, MessageId(1));
}

/// A message answering a submission that awaits a reply goes to that
/// subscription, not the inbox, and is handed over exactly once.
#[test]
fn replies_are_correlated_to_their_subscription() {
    let router = test_router(true);
    let mut stack = MessageStack::new();
    let (id, sub) = stack
        .new_message(&router, 0, dest_in_route(), vec![1], vec![], 60, true)
        .expect("destination has a route");
    let sub = sub.expect("a reply subscription was asked for");
    assert_eq!(sub.id, id);

    assert_eq!(stack.try_get_reply(&sub), None);
    stack.push_received(received(id.0, b"", b"the answer"));

    // The reply is not visible in the inbox.
    assert_eq!(stack.message(false, None), None);
    let reply = stack.try_get_reply(&sub).expect("the reply arrived");
    assert_eq!(reply.data, b"the answer".to_vec());
    // At most once.
    assert_eq!(stack.try_get_reply(&sub), None);
}

#[test]
fn reply_message_skips_the_reachability_check() {
    let mut stack = MessageStack::new();
    // No router involved at all: the reply is accepted best-effort.
    stack.reply_message(MessageId(900), 0, Addr { hi: 5, lo: 5 }, vec![3], 60);
    let info = stack.message_info(MessageId(0)).expect("the reply was registered");
    assert_eq!(info.state, DeliveryState::Pending);
}

#[test]
fn deadlines_and_acknowledgements_drive_the_status() {
    let router = test_router(true);
    let mut stack = MessageStack::new();
    let (first, _) = stack
        .new_message(&router, 100, dest_in_route(), vec![1], vec![], 60, false)
        .expect("destination has a route");
    let (second, _) = stack
        .new_message(&router, 100, dest_in_route(), vec![2], vec![], 60, false)
        .expect("destination has a route");

    stack.mark_delivered(first);
    assert_eq!(stack.message_info(first).unwrap().state, DeliveryState::Delivered);
    // Acknowledgement changes the state and nothing else.
    assert_eq!(stack.message_info(first).unwrap().deadline, 160);
    assert_eq!(stack.message_info(second).unwrap().state, DeliveryState::Pending);

    stack.check_deadlines(200);
    assert_eq!(stack.message_info(second).unwrap().state, DeliveryState::Failed);
    // A delivered message does not fail retroactively.
    assert_eq!(stack.message_info(first).unwrap().state, DeliveryState::Delivered);
    // Unknown identifiers have no status.
    assert_eq!(stack.message_info(MessageId(50)), None);
}

#[test]
fn get_message_query_defaults() {
    let q = GetMessageQuery { peek: None, timeout: None, topic: None };
    assert!(!q.peek());
    assert_eq!(q.timeout_secs(), 0);
    let q = GetMessageQuery { peek: Some(true), timeout: Some(9), topic: None };
    assert!(q.peek());
    assert_eq!(q.timeout_secs(), 9);
    let q = GetMessageQuery { peek: Some(false), timeout: None, topic: None };
    assert!(!q.peek());
}

#[test]
fn push_message_query_reply_handling() {
    let q = PushMessageQuery { reply_timeout: None };
    assert!(!q.await_reply());
    assert_eq!(q.timeout(), 0);
    let q = PushMessageQuery { reply_timeout: Some(30) };
    assert!(q.await_reply());
    assert_eq!(q.timeout(), 30);
}
