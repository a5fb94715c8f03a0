//! Domain events: the typed notifications a connection handler emits and the
//! log aggregator consumes, together with the plain-value model of a peer,
//! a request method, a response status and a response.

use vstd::prelude::*;

verus! {

/// The network identity of a connected client: its IP as text, plus the
/// source port.  Entries are grouped in the connection log by IP alone.
#[derive(Debug, Clone)]
pub struct Peer {
    pub ip: String,
    pub port: u16,
}

/// Mathematical model of a [`Peer`].
pub ghost struct PeerModel {
    pub ip: Seq<char>,
    pub port: u16,
}

impl View for Peer {
    type V = PeerModel;

    open spec fn view(&self) -> PeerModel {
        PeerModel { ip: self.ip@, port: self.port }
    }
}

impl Peer {
    pub fn new(ip: String, port: u16) -> (r: Peer)
        ensures
            r@ == (PeerModel { ip: ip@, port }),
    {
        Peer { ip, port }
    }

    /// A copy whose model equals this peer's.
    pub fn duplicate(&self) -> (r: Peer)
        ensures
            r@ == self@,
    {
        Peer { ip: self.ip.clone(), port: self.port }
    }
}

/// The request methods the wire protocol distinguishes.
#[derive(Clone, Copy, Debug, PartialEq, Eq, Structural)]
pub enum Method {
    Head,
    Get,
    Post,
    Put,
    Delete,
    Patch,
}

/// The response statuses the responder issues.
#[derive(Clone, Copy, Debug, PartialEq, Eq, Structural)]
pub enum Status {
    Okay,
    NotFound,
    NotAllowed,
    InternalServerError,
}

/// The numeric code of a status.
pub open spec fn status_code(s: Status) -> int {
    match s {
        Status::Okay => 200,
        Status::NotFound => 404,
        Status::NotAllowed => 405,
        Status::InternalServerError => 500,
    }
}

impl Status {
    /// The numeric code of this status.
    pub fn code(&self) -> (r: u16)
        ensures
            r == status_code(*self),
    {
        match *self {
            Status::Okay => 200,
            Status::NotFound => 404,
            Status::NotAllowed => 405,
            Status::InternalServerError => 500,
        }
    }
}

/// A response about to be written to a connection: a status, an optional
/// body, and the content-type text that will accompany the body.
#[derive(Debug, Clone)]
pub struct Response {
    pub status: Status,
    pub content: Option<String>,
    pub format: String,
}

/// Mathematical model of a [`Response`].
pub ghost struct ResponseModel {
    pub status: Status,
    pub content: Option<Seq<char>>,
    pub format: Seq<char>,
}

impl View for Response {
    type V = ResponseModel;

    open spec fn view(&self) -> ResponseModel {
        ResponseModel {
            status: self.status,
            content: match self.content {
                Some(ref c) => Some(c@),
                None => None,
            },
            format: self.format@,
        }
    }
}

impl Response {
    /// A copy whose model equals this response's.
    pub fn duplicate(&self) -> (r: Response)
        ensures
            r@ == self@,
    {
        Response {
            status: self.status,
            content: match &self.content {
                Some(c) => Some(c.clone()),
                None => None,
            },
            format: self.format.clone(),
        }
    }
}

/// Why a connection could not be served: the connection itself failed, or a
/// request was read but could not be parsed.  Reasons are carried as text.
#[derive(Debug, Clone)]
pub enum ConnectionFailedError {
    Connection(String),
    Parsing(Peer, String),
}

/// The event a connection handler emits after writing a response.
#[derive(Debug, Clone)]
pub struct ResponseMessage {
    pub addr: Peer,
    pub response: Response,
    pub method: Option<Method>,
    pub status: Option<Status>,
}

impl ResponseMessage {
    pub fn new(addr: Peer, response: &Response, method: Option<Method>, status: Option<Status>) -> (r: ResponseMessage)
        ensures
            r.addr@ == addr@,
            r.response@ == response@,
            r.method == method,
            r.status == status,
    {
        ResponseMessage { status, method, addr, response: response.duplicate() }
    }
}

/// A domain event: one connection's lifecycle notification.
#[derive(Debug, Clone)]
pub enum Message {
    ConnectionFailed(ConnectionFailedError),
    ConnectionReceived(Option<Peer>),
    Response(ResponseMessage),
}

} // verus!
