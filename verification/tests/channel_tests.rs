//! The bounded event channel: backpressure without loss or reordering.

use testsuite::channel::EventChannel;
use testsuite::message::Message;
use testsuite::message::Peer;

fn received(ip: &str) -> Message {
    Message::ConnectionReceived(Some(Peer::new(ip.to_string(), 1)))
}

fn ip_of(m: &Message) -> String {
    match m {
        Message::ConnectionReceived(Some(p)) => p.ip.clone(),
        _ => panic!("expected a connection-received event"),
    }
}

#[test]
fn send_at_capacity_suspends_and_keeps_event() {
    let mut ch = EventChannel::new(3);
    assert!(ch.try_send(received("a")).is_ok());
    assert!(ch.try_send(received("b")).is_ok());
    assert!(ch.try_send(received("c")).is_ok());
    assert_eq!(ch.len(), 3);
    let back = ch.try_send(received("d"));
    match back {
        Err(m) => assert_eq!(ip_of(&m), "d"),
        Ok(_) => panic!("a full channel must refuse the send"),
    }
    assert_eq!(ch.len(), 3);
    let drained = ch.recv().unwrap();
    assert_eq!(ip_of(&drained), "a");
    assert!(ch.try_send(received("d")).is_ok());
    assert_eq!(ip_of(&ch.recv().unwrap()), "b");
    assert_eq!(ip_of(&ch.recv().unwrap()), "c");
    assert_eq!(ip_of(&ch.recv().unwrap()), "d");
    assert!(ch.recv().is_none());
}

#[test]
fn events_come_out_in_send_order() {
    let mut ch = EventChannel::new(100);
    for ip in ["one", "two", "three"] {
        assert!(ch.try_send(received(ip)).is_ok());
    }
    assert_eq!(ip_of(&ch.recv().unwrap()), "one");
    assert_eq!(ip_of(&ch.recv().unwrap()), "two");
    assert_eq!(ip_of(&ch.recv().unwrap()), "three");
}

#[test]
fn recv_on_empty_channel_is_none() {
    let mut ch = EventChannel::new(2);
    assert!(ch.recv().is_none());
    assert_eq!(ch.len(), 0);
}

#[test]
fn zero_capacity_channel_refuses_everything() {
    let mut ch = EventChannel::new(0);
    assert!(ch.try_send(received("a")).is_err());
    assert!(ch.recv().is_none());
}
