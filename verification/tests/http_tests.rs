//! The request handler and the wire boundary.

use testsuite::endpoint::EndpointContent;
use testsuite::endpoint::EndpointMap;
use testsuite::format::ResponseFormat;
use testsuite::format::ResponseFormatError;
use testsuite::http::handle;
use testsuite::http::process_request;
use testsuite::http::Request;
use testsuite::message::Message;
use testsuite::message::Method;
use testsuite::message::Peer;
use testsuite::message::Status;

fn hello_map() -> EndpointMap {
    let mut map = EndpointMap::new();
    map.insert(
        "/hello".to_string(),
        EndpointContent::from_content("hi", &ResponseFormat::Json),
    );
    map
}

fn peer() -> Peer {
    Peer::new("127.0.0.1".to_string(), 4242)
}

#[test]
fn get_mapped_path_yields_ok_with_content() {
    let map = hello_map();
    let req = Request {
        method: Method::Get,
        path: "/hello".to_string(),
        body: String::new(),
    };
    let (res, msg) = handle(&req, &map, &peer());
    assert!(matches!(res.status, Status::Okay));
    assert_eq!(res.status.code(), 200);
    assert_eq!(res.content.as_deref(), Some("hi"));
    assert_eq!(res.format, "application/json");
    match msg {
        Message::Response(rm) => {
            assert_eq!(rm.addr.ip, "127.0.0.1");
            assert!(matches!(rm.method, Some(Method::Get)));
            assert!(matches!(rm.status, Some(Status::Okay)));
            assert_eq!(rm.response.content.as_deref(), Some("hi"));
        }
        _ => panic!("expected a response event"),
    }
}

#[test]
fn get_unmapped_path_yields_404_empty() {
    let map = hello_map();
    let req = Request {
        method: Method::Get,
        path: "/missing".to_string(),
        body: String::new(),
    };
    let (res, msg) = handle(&req, &map, &peer());
    assert!(matches!(res.status, Status::NotFound));
    assert_eq!(res.status.code(), 404);
    assert!(res.content.is_none());
    match msg {
        Message::Response(rm) => {
            assert!(matches!(rm.status, Some(Status::NotFound)));
        }
        _ => panic!("expected a response event"),
    }
}

#[test]
fn get_mapped_path_without_content_yields_ok_empty() {
    let mut map = EndpointMap::new();
    map.insert(
        "/blank".to_string(),
        EndpointContent { content: None, format: "text/html".to_string() },
    );
    let req = Request {
        method: Method::Get,
        path: "/blank".to_string(),
        body: String::new(),
    };
    let (res, _) = handle(&req, &map, &peer());
    assert!(matches!(res.status, Status::Okay));
    assert!(res.content.is_none());
    assert_eq!(res.format, "");
}

#[test]
fn post_echoes_body_under_mapped_format() {
    let map = hello_map();
    let req = Request {
        method: Method::Post,
        path: "/hello".to_string(),
        body: "{\"k\":1}".to_string(),
    };
    let (res, msg) = handle(&req, &map, &peer());
    assert!(matches!(res.status, Status::Okay));
    assert_eq!(res.content.as_deref(), Some("{\"k\":1}"));
    assert_eq!(res.format, "application/json");
    assert!(matches!(msg, Message::Response(_)));
}

#[test]
fn post_unmapped_path_yields_404() {
    let map = hello_map();
    let req = Request {
        method: Method::Post,
        path: "/other".to_string(),
        body: "x".to_string(),
    };
    let (res, _) = handle(&req, &map, &peer());
    assert!(matches!(res.status, Status::NotFound));
    assert!(res.content.is_none());
}

#[test]
fn other_methods_are_not_allowed_and_reported() {
    let map = hello_map();
    for method in [Method::Head, Method::Put, Method::Delete, Method::Patch] {
        let req = Request {
            method,
            path: "/hello".to_string(),
            body: String::new(),
        };
        let (res, msg) = handle(&req, &map, &peer());
        assert!(matches!(res.status, Status::NotAllowed));
        assert_eq!(res.status.code(), 405);
        assert!(res.content.is_none());
        match msg {
            Message::Response(rm) => {
                assert_eq!(rm.addr.ip, "127.0.0.1");
                assert_eq!(rm.method, Some(method));
                assert!(matches!(rm.status, Some(Status::NotAllowed)));
                assert!(rm.response.content.is_none());
            }
            _ => panic!("expected a response event"),
        }
    }
}

#[test]
fn parse_reads_method_path_and_body() {
    let map = hello_map();
    let text = "POST /hello HTTP/1.1\r\nHost: localhost\r\n\r\n{ \"a\": 1 }";
    let (res, _) = process_request(text, &map, &peer()).unwrap();
    assert!(matches!(res.status, Status::Okay));
    assert_eq!(res.content.as_deref(), Some("{ \"a\": 1 }"));
}

#[test]
fn parse_strips_query_from_path() {
    let map = hello_map();
    let text = "GET /hello?name=foo HTTP/1.1\r\n\r\n";
    let (res, _) = process_request(text, &map, &peer()).unwrap();
    assert!(matches!(res.status, Status::Okay));
    assert_eq!(res.content.as_deref(), Some("hi"));
}

#[test]
fn parse_rejects_unknown_method() {
    let map = hello_map();
    assert!(process_request("FROB / HTTP/1.1\r\n\r\n", &map, &peer()).is_err());
    assert!(process_request("nonsense", &map, &peer()).is_err());
}

#[test]
fn process_request_full_round() {
    let map = hello_map();
    let out = process_request("GET /hello HTTP/1.1\r\n\r\n", &map, &peer());
    let (res, msg) = out.unwrap();
    assert_eq!(res.status.code(), 200);
    assert_eq!(res.content.as_deref(), Some("hi"));
    assert!(matches!(msg, Message::Response(_)));
}

#[test]
fn process_request_reports_parse_failure() {
    let map = hello_map();
    let out = process_request("BROKEN", &map, &peer());
    assert!(out.is_err());
}

#[test]
fn status_codes_match_http() {
    assert_eq!(Status::Okay.code(), 200);
    assert_eq!(Status::NotFound.code(), 404);
    assert_eq!(Status::NotAllowed.code(), 405);
    assert_eq!(Status::InternalServerError.code(), 500);
}

#[test]
fn response_format_to_string_values() {
    assert_eq!(ResponseFormat::Json.to_string(), "application/json");
    assert_eq!(ResponseFormat::Html.to_string(), "text/html");
    assert_eq!(ResponseFormat::Empty.to_string(), "");
}

#[test]
fn response_format_parses_case_insensitively() {
    assert!(matches!(ResponseFormat::from_str("json"), Ok(ResponseFormat::Json)));
    assert!(matches!(ResponseFormat::from_str("JSON"), Ok(ResponseFormat::Json)));
    assert!(matches!(ResponseFormat::from_str("Html"), Ok(ResponseFormat::Html)));
    assert!(matches!(ResponseFormat::from_str(""), Ok(ResponseFormat::Empty)));
    match ResponseFormat::from_str("yaml") {
        Err(ResponseFormatError::ParseFailedError(t)) => assert_eq!(t, "yaml"),
        _ => panic!("expected a parse failure"),
    }
}
