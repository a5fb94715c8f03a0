//! A stub HTTP responder for testing, paired with a terminal dashboard that
//! shows, per connected peer, the connections received and the responses
//! served.  This crate holds the verified core: the typed domain events, the
//! append-only connection log, the request handler, the dashboard state
//! machine and the pure render layer.  Network, terminal and file I/O live in
//! the surrounding application, which feeds this library plain values.

pub mod args;
pub mod channel;
pub mod connections;
pub mod endpoint;
pub mod format;
pub mod http;
pub mod keyed;
pub mod message;
pub mod ordmap;
pub mod text;
pub mod tui;
