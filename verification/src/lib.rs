//! Core logic of a room-linking relay bot for a federated chat network.
//!
//! The bot joins rooms it is invited to, discovers pairs of rooms that mirror
//! one another through the server's public directory, keeps a bidirectional
//! routing table between them, and relays text messages across each link.
//! Everything that decides (pairing, routing, relay filtering, command
//! dispatch, join backoff) lives here; the network client that feeds events in
//! and carries messages out stays outside.

pub mod commands;
pub mod discovery;
pub mod homeserver;
pub mod invite;
pub mod relay;
pub mod routing;
