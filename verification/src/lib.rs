//! An intercepting HTTP/HTTPS proxy core: it terminates TLS with leaf
//! certificates minted on demand from a local root, observes every request
//! and response as a stream of typed events, and lets an editor stall and
//! replace a head or a body chunk before it travels on.
//!
//! The crate holds the proxy's decisions and data model; the surrounding
//! process supplies the sockets, the TLS handshakes and the task runtime,
//! and feeds their outcomes back in as plain values.

pub mod body;
pub mod bus;
pub mod cert;
pub mod event;
pub mod flow;
pub mod headers;
pub mod proxy;
pub mod request;
pub mod response;
pub mod storable;
pub mod store;
pub mod uri;
pub mod util;
