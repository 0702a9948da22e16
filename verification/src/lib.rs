//! Core of a peer-to-peer atomic swap between Bitcoin and Monero.
//!
//! Two parties take part: Alice holds XMR and wants BTC, Bob holds BTC and
//! wants XMR. This crate holds the rules of the protocol: the parameters of
//! each network, the checkpointable states of both roles, the transition
//! function of each role, the byte format of persisted snapshots and of the
//! negotiation messages, and the bookkeeping that drives a swap from a
//! snapshot to a terminal state. Everything that touches a wallet, a chain
//! or the network is left to the caller, who reports what it saw.

pub mod alice;
pub mod bob;
pub mod chain;
pub mod codec;
pub mod database;
pub mod execution_params;
pub mod network;
pub mod orchestrator;
pub mod protocol;
pub mod state;
