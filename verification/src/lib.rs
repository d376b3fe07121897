//! A driver core for Chromium-class browsers speaking the Chrome DevTools
//! Protocol (CDP) over a single WebSocket.
//!
//! This crate holds the transport and session multiplexer: the machinery that
//! turns one bidirectional socket carrying interleaved JSON messages into
//! correlated request/response calls and ordered per-target event streams.
//! The socket itself, the child process, and the clock live outside; the
//! library is a verified state machine that frames outbound calls, classifies
//! inbound frames, correlates responses to callers, routes events to
//! listeners, and supervises the tab registry.
//!
//! The guarantees, each stated and proved where it lives:
//! - correlation and at-most-once delivery of call slots:
//!   [`registry::lemma_correlation`], [`registry::lemma_at_most_once_delivery`],
//!   [`registry::lemma_pickup_from_history`];
//! - session isolation and in-order delivery of events:
//!   [`router::lemma_session_isolation`], [`router::lemma_ordering`],
//!   [`router::lemma_ordering_browser`];
//! - shutdown liveness: the contract of [`transport::Transport::shutdown`]
//!   (no pending call survives; every waiter observes `TransportClosed`;
//!   later calls fail at once);
//! - drop safety: the contract of [`browser::Browser::shutdown`];
//! - bounded back-off of waits: [`waiter::lemma_bounded_sleep`].

use vstd::prelude::*;

pub use browser::Browser;
pub use browser::Tab;

pub mod browser;
pub mod page;
pub mod protocol;
pub mod registry;
pub mod router;
pub mod transport;
pub mod waiter;
pub mod wire;

verus! {

/// The error kinds a caller of the driver core can observe.
///
/// - `ProtocolError`: the peer returned an `error` object for a specific call.
/// - `DecodeError`: a response's `result` did not match the expected shape.
/// - `Timeout`: a call's slot or a waiter's deadline elapsed.
/// - `TransportClosed`: the socket closed while a call was outstanding.
/// - `SessionClosed`: the session went away while a session-scoped call was
///   outstanding.
/// - `LaunchError`: the process failed to start or never advertised a
///   WebSocket URL.
#[derive(Debug, PartialEq, Eq)]
pub enum CdpError {
    ProtocolError { code: i64, message: Vec<u8> },
    DecodeError,
    Timeout,
    TransportClosed,
    SessionClosed,
    LaunchError,
}

} // verus!
