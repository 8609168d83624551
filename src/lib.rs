//! Coordinator for minting tokens that stand for control of remote accounts
//! reached over an asynchronous, callback-driven channel.
//!
//! The crate holds the coordinator's state machine: the mint-request queue, the
//! token/controller bimap, the per-token channel status and transaction history,
//! and the authorization and reconciliation rules that tie callbacks back to the
//! pending work they answer. Every operation either succeeds or leaves the state
//! exactly as it found it.

mod text;
pub mod error;
pub mod bimap;
pub mod state;
pub mod msg;
pub mod coordinator;
pub mod receipt;
pub mod laws;
pub mod store;

