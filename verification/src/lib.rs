//! A LAN availability monitor library.
//!
//! The library tracks the up/down state of a fixed set of network nodes from
//! a stream of per-address probe events, and decides when a "node down" or
//! "node restored" notification must be sent.  Probing, name resolution,
//! configuration file reading and notification delivery are left to the
//! surrounding program; this crate owns the state machine, the node registry
//! and the notification texts.

pub mod clock;
pub mod config;
pub mod node;
pub mod registry;
pub mod laws;
