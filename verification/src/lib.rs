//! A verified core for a line-oriented chat-protocol client.
//!
//! The library turns one raw protocol line into a structured message
//! (`text` and `message`), and decides for each message what, if anything,
//! must be sent back, what should be shown to the user, and how the
//! session state moves (`dispatch`), given the per-connection session
//! parameters (`config`). All I/O — the transport connection, buffering,
//! console output — lives outside the library.

pub mod config;
pub mod dispatch;
pub mod message;
pub mod text;
