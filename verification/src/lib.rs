//! Core logic of a small MUD client.
//!
//! The client is built from a handful of actors — a protocol connection, a
//! script-driven automation engine, a presentation layer and a central event
//! router — around one shared data structure, a fixed-capacity ring buffer
//! with a dedup-and-promote insertion used for the command history.  This
//! crate holds the data structures and the decision logic of those actors;
//! the surrounding process (sockets, terminal, script interpreter) drives
//! them through the request and event types defined here.

pub mod decimal;
pub mod input;
pub mod layout;
pub mod ring;
pub mod router;
pub mod script;
pub mod telnet;
