//! Request handling: the wire boundary to the `nanohttp` crate, which
//! parses requests and encodes responses, and the verified handler that
//! decides what every parsed request is answered with.
//!
//! The application shell owns the socket.  For each accepted connection it
//! first emits a `ConnectionReceived` event, then hands the bytes it read
//! to [`process_request`]; on success it writes the encoded response and
//! forwards the returned event, on failure it emits a `ConnectionFailed`
//! event instead and writes nothing.

use vstd::prelude::*;
use crate::endpoint::EndpointMap;
use crate::endpoint::EndpointContentModel;
use crate::keyed::key_find;
use crate::message::status_code;
use crate::message::Message;
use crate::message::Method;
use crate::message::Peer;
use crate::message::Response;
use crate::message::ResponseMessage;
use crate::message::ResponseModel;
use crate::message::Status;

verus! {

/// One parsed request: its method, the path it asks for, and its body.
#[derive(Debug, Clone)]
pub struct Request {
    pub method: Method,
    pub path: String,
    pub body: String,
}

/// The wire token of a method.
pub open spec fn method_token(m: Method) -> Seq<char> {
    match m {
        Method::Head => "HEAD"@,
        Method::Get => "GET"@,
        Method::Post => "POST"@,
        Method::Put => "PUT"@,
        Method::Delete => "DELETE"@,
        Method::Patch => "PATCH"@,
    }
}

/// The method a wire token stands for.
pub open spec fn token_method(tok: Seq<char>) -> Option<Method> {
    if tok == "HEAD"@ {
        Some(Method::Head)
    } else if tok == "GET"@ {
        Some(Method::Get)
    } else if tok == "POST"@ {
        Some(Method::Post)
    } else if tok == "PUT"@ {
        Some(Method::Put)
    } else if tok == "DELETE"@ {
        Some(Method::Delete)
    } else if tok == "PATCH"@ {
        Some(Method::Patch)
    } else {
        None
    }
}

/// What `nanohttp` parses request text into: the method token, the path
/// without its query part, and the body; nothing for text it rejects.
pub uninterp spec fn parsed_request(s: Seq<char>) -> Option<(Seq<char>, Seq<char>, Seq<char>)>;

/// Relies on `nanohttp::Request::from_string`: a pure parse of the
/// request text, rejected where the start line is not a known method, a
/// path and a protocol.  The error text is the parser's message.
#[verifier::external_body]
pub(crate) fn parse_http_request(text: &str) -> (r: Result<Request, String>)
    ensures
        (match r {
            Ok(req) => parsed_request(text@) == Some(
                (method_token(req.method), req.path@, req.body@),
            ),
            Err(_) => parsed_request(text@) is None,
        }),
{
    let q = match nanohttp::Request::from_string(text) {
        Ok(q) => q,
        Err(e) => return Err(e.msg),
    };
    let method = match q.method {
        nanohttp::Method::HEAD => Method::Head,
        nanohttp::Method::GET => Method::Get,
        nanohttp::Method::POST => Method::Post,
        nanohttp::Method::PUT => Method::Put,
        nanohttp::Method::DELETE => Method::Delete,
        nanohttp::Method::PATCH => Method::Patch,
    };
    Ok(Request { method, path: q.path.uri, body: q.body })
}

/// What `nanohttp` encodes a response into: the full frame text for a
/// status code, an optional body and a content-type.
pub uninterp spec fn http_frame(status: int, content: Option<Seq<char>>, content_type: Seq<char>) -> Seq<char>;

/// Relies on `nanohttp::Response::content`, `Response::empty`,
/// `Response::status` and `ToString`: the frame is a function of the
/// status, body and content-type alone.  A response without a body is
/// encoded bare, with no content headers.
#[verifier::external_body]
pub(crate) fn encode_response(res: &Response) -> (r: String)
    ensures
        r@ == http_frame(status_code(res.status), res@.content, res@.format),
{
    let status = match res.status {
        Status::Okay => nanohttp::Status::Ok,
        Status::NotFound => nanohttp::Status::NotFound,
        Status::NotAllowed => nanohttp::Status::NotAllowed,
        Status::InternalServerError => nanohttp::Status::InternalServerError,
    };
    let base = match &res.content {
        Some(c) => nanohttp::Response::content(c.as_str(), res.format.as_str()),
        None => nanohttp::Response::empty(),
    };
    base.status(status).to_string()
}

/// Encodes a response into the frame written to the wire: status line,
/// content headers where there is a body, blank line, body.
pub fn encode_http_response(res: &Response) -> (r: String)
    ensures
        r@ == http_frame(status_code(res.status), res@.content, res@.format),
{
    encode_response(res)
}

/// The response a request is answered with: a `GET` serves the mapped
/// content, a `POST` echoes its body under the mapped format, an unmapped
/// path is answered `404` with an empty body, and any other method is not
/// allowed.
pub open spec fn response_for(
    method: Method,
    path: Seq<char>,
    body: Seq<char>,
    m: Seq<(Seq<char>, EndpointContentModel)>,
) -> ResponseModel {
    match method {
        Method::Get => match key_find(m, path) {
            Some(data) => match data.content {
                Some(c) => ResponseModel {
                    status: Status::Okay,
                    content: Some(c),
                    format: data.format,
                },
                None => ResponseModel {
                    status: Status::Okay,
                    content: None,
                    format: Seq::<char>::empty(),
                },
            },
            None => ResponseModel {
                status: Status::NotFound,
                content: None,
                format: Seq::<char>::empty(),
            },
        },
        Method::Post => match key_find(m, path) {
            Some(data) => ResponseModel {
                status: Status::Okay,
                content: Some(body),
                format: data.format,
            },
            None => ResponseModel {
                status: Status::NotFound,
                content: None,
                format: Seq::<char>::empty(),
            },
        },
        _ => ResponseModel {
            status: Status::NotAllowed,
            content: None,
            format: Seq::<char>::empty(),
        },
    }
}

/// Answers one parsed request against the endpoint map.  Every produced
/// response is reported as a `Response` event carrying the peer, the
/// response itself, the method and the status — the "method not allowed"
/// answer included.
pub fn handle(req: &Request, map: &EndpointMap, addr: &Peer) -> (r: (Response, Message))
    requires
        map.well_formed(),
    ensures
        r.0@ == response_for(req.method, req.path@, req.body@, map@),
        r.1 matches Message::Response(rm) && {
            &&& rm.addr@ == addr@
            &&& rm.response@ == r.0@
            &&& rm.method == Some(req.method)
            &&& rm.status == Some(r.0@.status)
        },
{
    let response = match req.method {
        Method::Get => match map.get(&req.path) {
            Some(data) => {
                let format = data.format.clone();
                match &data.content {
                    Some(content) => Response {
                        status: Status::Okay,
                        content: Some(content.clone()),
                        format,
                    },
                    None => Response { status: Status::Okay, content: None, format: String::new() },
                }
            },
            None => Response { status: Status::NotFound, content: None, format: String::new() },
        },
        Method::Post => match map.get(&req.path) {
            Some(data) => Response {
                status: Status::Okay,
                content: Some(req.body.clone()),
                format: data.format.clone(),
            },
            None => Response { status: Status::NotFound, content: None, format: String::new() },
        },
        _ => Response { status: Status::NotAllowed, content: None, format: String::new() },
    };
    let status = response.status;
    let message = Message::Response(
        ResponseMessage::new(addr.duplicate(), &response, Some(req.method), Some(status)),
    );
    (response, message)
}

/// Parses the text read from one connection and answers it: the response
/// to write and the event to report on success, the parser's message on
/// text that is not a request.
pub fn process_request(text: &str, map: &EndpointMap, addr: &Peer) -> (r: Result<
    (Response, Message),
    String,
>)
    requires
        map.well_formed(),
    ensures
        (match r {
            Ok(p) => parsed_request(text@) matches Some(t) && token_method(t.0) matches Some(m)
                && {
                &&& p.0@ == response_for(m, t.1, t.2, map@)
                &&& p.1 matches Message::Response(rm) && rm.addr@ == addr@ && rm.response@ == p.0@
                    && rm.method == Some(m) && rm.status == Some(p.0@.status)
            },
            Err(_) => parsed_request(text@) is None,
        }),
{
    match parse_http_request(text) {
        Ok(req) => {
            proof {
                reveal_strlit("HEAD");
                reveal_strlit("GET");
                reveal_strlit("POST");
                reveal_strlit("PUT");
                reveal_strlit("DELETE");
                reveal_strlit("PATCH");
                assert("HEAD"@.len() == 4 && "GET"@.len() == 3 && "POST"@.len() == 4
                    && "PUT"@.len() == 3 && "DELETE"@.len() == 6 && "PATCH"@.len() == 5);
                assert("HEAD"@[0] == 'H' && "POST"@[0] == 'P' && "GET"@[0] == 'G'
                    && "PUT"@[0] == 'P' && "PATCH"@[0] == 'P' && "PATCH"@[1] == 'A'
                    && "POST"@[1] == 'O' && "PUT"@[1] == 'U');
                assert(token_method(method_token(req.method)) == Some(req.method));
            }
            Ok(handle(&req, map, addr))
        },
        Err(e) => Err(e),
    }
}

} // verus!
