//! A lightweight on-chain governance engine.
//!
//! The library keeps a token ledger, accepts funding-backed proposals,
//! tallies weighted votes against a threshold, and drives accepted
//! proposals through an execution lifecycle.  A flat participant
//! registration store lives beside it.  All state-changing operations
//! carry contracts; the host is expected to supply identities, time and
//! the external invocation channel as plain values.

pub mod types;
pub mod ledger;
pub mod proposals;
pub mod service;
pub mod laws;
pub mod events;
