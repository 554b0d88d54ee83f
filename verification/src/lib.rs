//! Peer-discovery and file-transfer coordination for sharing files over a
//! local network.
//!
//! The crate models the coordination core of a share subsystem: a peer
//! directory kept in step with the live peer set reported by the network,
//! a command queue carrying operator intents, an event queue carrying state
//! notifications back to the caller, and a worker state machine that drives
//! discovery reconciliation and one-at-a-time file transfers.  All decisions
//! are made here under contract; the surrounding process performs the actual
//! network operations and feeds their outcomes back in.

pub mod directory;
pub mod manager;
pub mod messages;
pub mod peer;
