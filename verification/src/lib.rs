//! Core of a cross-chain trust-establishment protocol: light-client
//! consensus-state registries indexed by height, and the connection and
//! channel handshake coordination between two independent chains.
//!
//! Each chain is a self-contained state machine (`chain::Chain`) owning its
//! clients, connection ends, channel ends and event log; the relayer
//! (`relayer::TypedRelayer`) drives the multi-step handshakes between two
//! chains, gathering proofs on one side and dispatching messages on the
//! other, issuing the client updates that the causal proof-height rules
//! demand.

pub mod chain;
pub mod channel;
pub mod client;
pub mod commitment;
pub mod connection;
pub mod dispatch;
pub mod errors;
pub mod height;
pub mod identifiers;
pub mod message;
pub mod relayer;
