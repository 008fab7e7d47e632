//! Decisions of a loopback WebSocket relay that forwards two kinds of JSON
//! messages to a webview as named events.
//!
//! The library holds what the relay decides: which decoded frames are
//! forwarded, how a connection moves between its states, and how the
//! listener reacts to binding and accepting. Sockets, the WebSocket
//! handshake, JSON decoding and the webview live with the caller, which
//! hands the library plain values and performs the actions it returns.
pub mod connection;
pub mod listener;
pub mod message;
