//! Client library for a turn-based two-player board-game tournament protocol.
//!
//! The wire format is one persistent XML document per connection: a root
//! wrapper element is opened once and never closed, and inside it the peer
//! and the client exchange a flat sequence of self-contained tree-shaped
//! protocol units.  This crate provides the element tree adapter that frames
//! those units out of an unbroken token stream, the encoder for outgoing
//! requests, the classifier for inbound events, and the session state
//! machine that drives handshake, join and per-event dispatch.

pub mod error;
pub mod strutil;
pub mod numbers;
pub mod wire;
pub mod xml;
pub mod game;
pub mod protocol;
pub mod client;
pub mod logic;
