//! The log aggregator: events in, per-peer append-only entries out.

use testsuite::connections::ConnectionLog;
use testsuite::connections::TuiResponse;
use testsuite::message::ConnectionFailedError;
use testsuite::message::Message;
use testsuite::message::Peer;
use testsuite::message::Response;
use testsuite::message::ResponseMessage;
use testsuite::message::Status;
use testsuite::connections::handle_message;

fn peer(ip: &str, port: u16) -> Peer {
    Peer::new(ip.to_string(), port)
}

fn response_event(ip: &str, port: u16, body: &str) -> Message {
    let response = Response {
        status: Status::Okay,
        content: Some(body.to_string()),
        format: "application/json".to_string(),
    };
    Message::Response(ResponseMessage::new(
        peer(ip, port),
        &response,
        None,
        Some(Status::Okay),
    ))
}

fn entry(ip: &str, content: Option<&str>) -> TuiResponse {
    TuiResponse {
        addr: peer(ip, 1000),
        content: content.map(|c| c.to_string()),
        time: "2024-01-01T00:00:00+00:00".to_string(),
        status: None,
        method: None,
        format: None,
    }
}

#[test]
fn two_peers_one_get_each_in_order() {
    let mut log = ConnectionLog::new();
    handle_message(response_event("10.0.0.1", 1111, "a"), &mut log);
    handle_message(response_event("10.0.0.2", 2222, "b"), &mut log);
    assert_eq!(log.len(), 2);
    let first = log.get_index(0).unwrap();
    let second = log.get_index(1).unwrap();
    assert_eq!(first.0, "10.0.0.1");
    assert_eq!(second.0, "10.0.0.2");
    assert_eq!(first.1.len(), 1);
    assert_eq!(second.1.len(), 1);
}

#[test]
fn failed_connection_logs_one_error_entry() {
    let mut log = ConnectionLog::new();
    handle_message(
        Message::ConnectionFailed(ConnectionFailedError::Parsing(
            peer("10.0.0.9", 999),
            "bad request line".to_string(),
        )),
        &mut log,
    );
    assert_eq!(log.len(), 1);
    let group = log.get_index(0).unwrap();
    assert_eq!(group.0, "10.0.0.9");
    assert_eq!(group.1.len(), 1);
    let e = &group.1[0];
    assert_eq!(e.content.as_deref(), Some("Error: bad request line"));
    assert!(matches!(e.status, Some(Status::InternalServerError)));
    assert!(e.method.is_none());
}

#[test]
fn connection_level_error_without_peer_logs_nothing() {
    let mut log = ConnectionLog::new();
    handle_message(
        Message::ConnectionFailed(ConnectionFailedError::Connection("refused".to_string())),
        &mut log,
    );
    handle_message(Message::ConnectionReceived(None), &mut log);
    assert_eq!(log.len(), 0);
}

#[test]
fn connection_received_logs_established_entry() {
    let mut log = ConnectionLog::new();
    handle_message(Message::ConnectionReceived(Some(peer("127.0.0.1", 5000))), &mut log);
    let group = log.get_index(0).unwrap();
    assert_eq!(group.0, "127.0.0.1");
    let e = &group.1[0];
    assert_eq!(e.content.as_deref(), Some("Established connection"));
    assert!(matches!(e.status, Some(Status::Okay)));
}

#[test]
fn response_entry_holds_encoded_frame() {
    let mut log = ConnectionLog::new();
    handle_message(response_event("10.1.1.1", 80, "hi"), &mut log);
    let group = log.get_index(0).unwrap();
    assert_eq!(
        group.1[0].content.as_deref(),
        Some("HTTP/1.1 200 OK\r\nContent-Type: application/json\r\nContent-Length: 2\r\n\r\nhi")
    );
}

#[test]
fn same_peer_groups_entries_in_receipt_order() {
    let mut log = ConnectionLog::new();
    handle_message(Message::ConnectionReceived(Some(peer("10.0.0.1", 1))), &mut log);
    handle_message(response_event("10.0.0.1", 1, "x"), &mut log);
    handle_message(response_event("10.0.0.2", 2, "y"), &mut log);
    handle_message(response_event("10.0.0.1", 1, "z"), &mut log);
    assert_eq!(log.len(), 2);
    let first = log.get_index(0).unwrap();
    assert_eq!(first.0, "10.0.0.1");
    assert_eq!(first.1.len(), 3);
    assert_eq!(first.1[0].content.as_deref(), Some("Established connection"));
    let second = log.get_index(1).unwrap();
    assert_eq!(second.0, "10.0.0.2");
    assert_eq!(second.1.len(), 1);
}

#[test]
fn push_entry_appends_never_reorders() {
    let mut log = ConnectionLog::new();
    log.push_entry("a".to_string(), entry("a", Some("one")));
    log.push_entry("b".to_string(), entry("b", Some("two")));
    log.push_entry("a".to_string(), entry("a", Some("three")));
    let a = log.get_index(0).unwrap();
    assert_eq!(a.0, "a");
    assert_eq!(a.1[0].content.as_deref(), Some("one"));
    assert_eq!(a.1[1].content.as_deref(), Some("three"));
    let b = log.get_index(1).unwrap();
    assert_eq!(b.1[0].content.as_deref(), Some("two"));
}

#[test]
fn snapshot_copies_everything() {
    let mut log = ConnectionLog::new();
    log.push_entry("a".to_string(), entry("a", Some("one")));
    log.push_entry("b".to_string(), entry("b", None));
    let copy = log.snapshot();
    assert_eq!(copy.len(), 2);
    let a = copy.get_index(0).unwrap();
    assert_eq!(a.0, "a");
    assert_eq!(a.1[0].content.as_deref(), Some("one"));
    let b = copy.get_index(1).unwrap();
    assert_eq!(b.0, "b");
    assert!(b.1[0].content.is_none());
    log.push_entry("c".to_string(), entry("c", None));
    assert_eq!(copy.len(), 2);
    assert_eq!(log.len(), 3);
}

#[test]
fn entry_line_joins_content_lines() {
    let e = entry("a", Some("first\nsecond\r\nthird"));
    assert_eq!(e.get_response_as_line(), "first second third ");
    let none = entry("a", None);
    assert_eq!(none.get_response_as_line(), "No content");
}

#[test]
fn get_index_out_of_range_is_none() {
    let log = ConnectionLog::new();
    assert!(log.get_index(0).is_none());
    assert!(log.is_empty());
}
