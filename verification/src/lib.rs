//! Session-lifecycle engine and request/response plane for a persistent
//! process multiplexer: a long-lived node owns PTY-backed child sessions,
//! and clients launch, list, attach to, send input to, and kill them over
//! a length-prefixed binary frame protocol.
//!
//! This crate holds the verified core: the frame codec, the typed message
//! set, the session registry and its lifecycle verbs, the output fan-out
//! and input queue models, the dispatcher routing and attach-bridge state
//! machines, and the persistence debounce. The transports (sockets,
//! WebSocket, message bus) and the PTY itself live outside, handing plain
//! values in and out.

pub mod protocol;
pub mod text;
pub mod session;
pub mod fanout;
pub mod terminal;
pub mod status_bar;
pub mod node;
pub mod config;
pub mod fleet;
pub mod auth;
pub mod client;
