//! Core of an event-driven SOCKS5 proxy with asynchronous DNS resolution,
//! together with the wire format and device table of a multicast discovery
//! service.
//!
//! The crate performs no I/O. Every function here takes the outcome of a
//! socket operation as a plain value and answers with the next state and the
//! operations to perform, so a reactor loop can drive it from any readiness
//! primitive.

pub mod connection;
pub mod dns;
pub mod error;
pub mod event;
pub mod handler;
pub mod invariants;
pub mod multicast;
pub mod net;
pub mod resolv;
pub mod server;
pub mod socks5;
pub mod text;
pub mod theorems;
pub mod util;
