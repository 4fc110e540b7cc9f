//! Transport core of a realtime multiplayer game.
//!
//! The crate holds the decisions of the transport: how a per-peer processor
//! turns one completed wait into one action, how the connection multiplexer
//! mints peer ids and routes a target to its peers, how the server keeps its
//! address table, and how the world reacts to peers that come and go. Every
//! function is stated over mathematical models and proved against them.

pub mod buffer;
pub mod channel;
pub mod client;
pub mod cluster;
pub mod game;
pub mod handshake;
pub mod lookup;
pub mod message;
pub mod multiplexer;
pub mod processor;
pub mod prototype;
pub mod runtime;
pub mod server;
pub mod session;
pub mod settings;
pub mod table;
pub mod text;
