//! Client-side core of a terminal login greeter.
//!
//! The daemon that owns credential verification speaks a simple wire
//! protocol over a local byte stream: each message is a 4-byte
//! little-endian length prefix followed by a UTF-8 JSON payload. This
//! crate implements that framing, the JSON message codec, the strict
//! authentication protocol state machine, and the
//! authenticate-then-start orchestration, together with the
//! configuration and screen-state values the surrounding terminal
//! front-end works on. All reads and writes of the byte stream itself,
//! as well as terminal rendering, live outside this crate; the library
//! only computes which bytes to send and what each received byte
//! sequence means.

pub mod config;
pub mod escape;
pub mod frame;
pub mod login;
pub mod messages;
pub mod parse;
pub mod protocol;
pub mod ui;
pub mod wire;
