//! Client-side mirror of a multimedia session daemon's object graph.
//!
//! A session daemon exposes its live objects (clients, devices, nodes, ports,
//! links, factories, metadata stores) through a callback-driven connection.
//! This crate holds the verified core that a UI builds on: the request/event
//! vocabulary exchanged with the bridge thread, the object tree reconstructed
//! from the event stream, the metadata store, and the helpers that turn user
//! edits into requests.

pub mod creator;
pub mod filter;
pub mod global;
pub mod kvlist;
pub mod metadata;
pub mod protocol;
pub mod session;
pub mod store;
pub mod strmap;
pub mod text;
