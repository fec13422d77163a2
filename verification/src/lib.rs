//! A single-process gateway core: an event-driven multiplexer that bridges
//! browser clients to locally spawned child processes.
//!
//! This crate holds the verified logic: WebSocket frame parsing and
//! serialization, HTTP header parsing and response construction, the
//! configuration extractor, the per-session state machines and the reactor's
//! interest-set bookkeeping. The surrounding process (sockets, pipes, poll,
//! child processes) feeds these functions plain values and performs the
//! actions they decide on.

pub mod config;
pub mod http;
pub mod reactor;
pub mod tcp_server;
pub mod websockets;
pub mod wire;
