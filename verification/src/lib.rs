//! The decision core of a one-way relay from WebSocket connections to a single
//! UDP destination.
//!
//! Nothing here touches a socket. The crate says which messages become
//! datagrams and with what bytes (`message`), how one connection moves from
//! accepted to closed and what it asks its driver to do next (`connection`),
//! how the accept loop keeps any number of connections apart (`relay`), and
//! in which order the sockets are brought up before the first accept
//! (`startup`).
//! The program that owns the sockets performs each action and reports what
//! happened as the next event.

pub mod connection;
pub mod message;
pub mod relay;
pub mod startup;
