//! A small runtime for nodes that speak a line-delimited JSON message
//! protocol: the message envelope, the opening handshake, the contract a
//! handler fulfils, and two handlers (a broadcast node and a unique-id node).
//!
//! The library works on decoded messages only. Reading lines, decoding and
//! encoding JSON, and writing to the output stream are left to the caller.

pub mod broadcast;
pub mod generate;
pub mod message;
pub mod names;
pub mod node;

pub use message::{Body, Message, MessageView};
pub use node::{handshake, HandshakeError, Init, InitPayload, InitView, Node, FIRST_ID, INIT_OK_ID};
