use std::sync::Arc;
use crossbeam::queue::SegQueue;
use rconpro::consumer::{keep_alive_step, Consumer, ConsumerQueue};
use rconpro::eip::{build_register_session, build_response_packet, EipError};
use rconpro::{ConsumerHint, EipAddr, IpAddress, Plc, Registry};

fn hint(tag: &str, otrpi: usize) -> ConsumerHint {
    ConsumerHint { tag: String::from(tag), data_size: 6, rpi: 1000, otrpi }
}

fn addr(last: u32, slot: u8) -> EipAddr {
    EipAddr { addr: IpAddress::V4(0xac10_0d00 | last), slot }
}

fn register_reply(handle: u32) -> Vec<u8> {
    let mut r = build_register_session();
    r[4..8].copy_from_slice(&handle.to_le_bytes());
    r
}

fn forward_open_reply(request: &[u8], ot: u32, to: u32) -> Vec<u8> {
    let mut r = request[0..40].to_vec();
    r.extend_from_slice(&[0xd4, 0, 0, 0]);
    r.extend_from_slice(&ot.to_le_bytes());
    r.extend_from_slice(&to.to_le_bytes());
    r
}

fn datagram(to: u32, payload: &[u8]) -> Vec<u8> {
    let mut d = build_response_packet(to, 1);
    d.extend_from_slice(payload);
    d
}

fn open_session(reg: &mut Registry, a: EipAddr, handle: u32) {
    assert!(!reg.has_session(&a));
    let mut plc = Plc::new(a);
    plc.register(&register_reply(handle)).unwrap();
    assert!(plc.is_registered());
    assert_eq!(plc.session_handle(), handle);
    reg.add_session(plc);
}

fn open_consumer(reg: &mut Registry, a: EipAddr, ot: u32, to: u32) -> Arc<ConsumerQueue> {
    let queue: Arc<ConsumerQueue> = Arc::new(SegQueue::new());
    let consumer = Consumer::new(hint("Tag", 1_500_000), &queue);
    let handle = reg.session_handle(&a).unwrap();
    let request = consumer.forward_open_request(handle).unwrap();
    assert_eq!(&request[4..8], &handle.to_le_bytes());
    let reply = forward_open_reply(&request, ot, to);
    assert_eq!(reg.add_consumer(&a, consumer, &reply), Ok(to));
    queue
}

#[test]
fn register_fails_on_short_reply() {
    let mut plc = Plc::new(addr(1, 0));
    assert_eq!(plc.register(&[0, 0, 0]), Err(EipError::Framing));
    assert!(!plc.is_registered());
}

#[test]
fn routing_reaches_only_the_owner() {
    let mut reg = Registry::new();
    let a = addr(1, 0);
    let b = addr(2, 0);
    open_session(&mut reg, a, 11);
    open_session(&mut reg, b, 22);
    let qa1 = open_consumer(&mut reg, a, 100, 1000);
    let qa2 = open_consumer(&mut reg, a, 101, 1001);
    let qb1 = open_consumer(&mut reg, b, 200, 2000);

    assert!(reg.dispatch(&a, &datagram(1001, &[1, 2, 3])));
    assert!(reg.dispatch(&b, &datagram(2000, &[4])));
    assert_eq!(qa2.pop(), Some(vec![1, 2, 3]));
    assert_eq!(qb1.pop(), Some(vec![4]));
    assert_eq!(qa1.pop(), None);
    assert_eq!(qa2.pop(), None);

    // an id that belongs to another controller's session is dropped
    assert!(!reg.dispatch(&a, &datagram(2000, &[5])));
    // an unknown id, an unknown sender, a slot that differs, a short datagram
    assert!(!reg.dispatch(&a, &datagram(3000, &[6])));
    assert!(!reg.dispatch(&addr(9, 0), &datagram(1000, &[7])));
    assert!(!reg.dispatch(&addr(1, 1), &datagram(1000, &[7])));
    assert!(!reg.dispatch(&a, &datagram(1000, &[])[0..19]));
    assert_eq!(qa1.pop(), None);
    assert_eq!(qb1.pop(), None);

    let (c, payload) = reg.route(&a, &datagram(1000, &[8, 9])).unwrap();
    assert_eq!(payload, vec![8, 9]);
    assert_eq!(c.ids().unwrap().ot_connection_id, 100);
    assert_eq!(c.ids().unwrap().to_connection_id, 1000);
}

#[test]
fn second_consumer_reuses_the_session() {
    let mut reg = Registry::new();
    let a = addr(1, 0);
    open_session(&mut reg, a, 11);
    open_consumer(&mut reg, a, 100, 1000);
    assert!(reg.has_session(&a));
    open_consumer(&mut reg, a, 101, 1001);
    assert!(reg.has_session(&a));
    assert!(reg.consumer(&a, 1000).is_some());
    assert!(reg.consumer(&a, 1001).is_some());
}

#[test]
fn add_consumer_errors() {
    let mut reg = Registry::new();
    let a = addr(1, 0);
    let queue: Arc<ConsumerQueue> = Arc::new(SegQueue::new());
    let consumer = Consumer::new(hint("Tag", 1000), &queue);
    let request = consumer.forward_open_request(5).unwrap();
    let reply = forward_open_reply(&request, 1, 2);
    assert_eq!(reg.add_consumer(&a, consumer, &reply), Err(EipError::UnknownSession));

    open_session(&mut reg, a, 5);
    let consumer = Consumer::new(hint("Tag", 1000), &queue);
    let mut rejected = reply.clone();
    rejected[42] = 1;
    assert_eq!(reg.add_consumer(&a, consumer, &rejected), Err(EipError::ForwardOpenRejected));
    assert!(reg.consumer(&a, 2).is_none());

    let mut bad = hint("Tag", 1000);
    bad.rpi = usize::MAX;
    let consumer = Consumer::new(bad, &queue);
    assert_eq!(consumer.forward_open_request(5), Err(EipError::InvalidHint));
}

#[test]
fn stop_consumer_removes_and_clears_flag() {
    let mut reg = Registry::new();
    let a = addr(1, 0);
    open_session(&mut reg, a, 11);
    let q = open_consumer(&mut reg, a, 100, 1000);
    let flag = reg.consumer(&a, 1000).unwrap().alive_flag();
    assert!(flag.load(std::sync::atomic::Ordering::Acquire));
    assert!(reg.stop_consumer(&a, 1000));
    assert!(!flag.load(std::sync::atomic::Ordering::Acquire));
    assert!(!reg.stop_consumer(&a, 1000));
    assert!(!reg.dispatch(&a, &datagram(1000, &[1])));
    assert_eq!(q.pop(), None);
}

#[test]
fn stopped_consumer_sends_no_keep_alive() {
    let queue: Arc<ConsumerQueue> = Arc::new(SegQueue::new());
    let consumer = Consumer::new(hint("Tag", 1000), &queue);
    assert!(consumer.is_alive());
    assert_eq!(keep_alive_step(consumer.is_alive(), 7, 9), Some(build_response_packet(7, 9)));
    consumer.stop();
    assert!(!consumer.is_alive());
    assert_eq!(keep_alive_step(consumer.is_alive(), 7, 10), None);
}

#[test]
fn keep_alive_period_splits_microseconds() {
    let queue: Arc<ConsumerQueue> = Arc::new(SegQueue::new());
    assert_eq!(Consumer::new(hint("T", 1_100_000), &queue).keep_alive_period(), (1, 100_000_000));
    assert_eq!(Consumer::new(hint("T", 1100), &queue).keep_alive_period(), (0, 1_100_000));
    assert_eq!(Consumer::new(hint("T", 0), &queue).keep_alive_period(), (0, 0));
}

#[test]
fn consumer_delivers_into_its_queue() {
    let queue: Arc<ConsumerQueue> = Arc::new(SegQueue::new());
    let consumer = Consumer::new(hint("T", 1000), &queue);
    consumer.deliver(vec![1, 2]);
    assert_eq!(queue.pop(), Some(vec![1, 2]));
    assert_eq!(consumer.ids(), None);
}
