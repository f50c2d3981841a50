//! Authoritative server core of a real-time multiplayer fighting game.
//!
//! The crate holds the wire codec, the request and response schema, the
//! player roster and world snapshot, the request dispatcher, the simulation
//! tick and the per-entity state machine, and the client's key handling.
//! Everything here is plain data and state transitions; sockets, threads,
//! files and rendering live outside. Lengths are fixed-point: one world unit
//! is a hundred steps of an `i64`.

pub mod base;
pub mod client;
pub mod game;
pub mod text;
