//! A single-connection IRC client engine.
//!
//! The crate covers the wire-format message parser, the RFC-1459 case-fold
//! comparator, the line-framing codec, the session state machine with its
//! command dispatcher, and the non-blocking socket driver that serializes
//! outgoing lines without loss or reordering.

pub mod bot;
pub mod casefold;
pub mod codec;
pub mod commands;
pub mod driver;
pub mod irc;
pub mod network;
pub mod text;
