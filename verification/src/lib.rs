//! One session against a server that speaks a Socket.IO-style framed
//! protocol over a WebSocket: numeric-prefixed text frames with optional
//! JSON bodies, a connection handshake, and a keepalive exchange beneath
//! named application events.
//!
//! The crate does no I/O. Its owner reads frames from the transport, hands
//! them to a [`session::Session`], and carries out what the session asks
//! for.
//!
//! - [`codec`]: text frames to packets and back.
//! - [`keepalive`]: the answer to a liveness probe.
//! - [`session`]: the handshake state machine.
//! - [`dispatch`]: event names to the reactions registered for them.
//! - [`registry`]: sessions by name.
//! - [`endpoint`], [`account`]: the address of the transport, and what the
//!   login exchange needs computed.
//! - [`json`], [`text`], [`error`]: JSON documents, string comparison, and
//!   the errors.

pub mod account;
pub mod codec;
pub mod dispatch;
pub mod endpoint;
pub mod error;
pub mod json;
pub mod keepalive;
pub mod registry;
pub mod session;
pub mod text;
