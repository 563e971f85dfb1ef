//! An account-based ledger organized as a hash-linked chain of blocks,
//! tracking every known competing branch ("timeline") at once.
//!
//! The library validates single ledger actions against a branch state,
//! validates blocks against their claimed parent — temporal order,
//! size-cap, and every action in sequence — and maintains the forest of
//! all admitted branches keyed by block hash. Each branch owns an
//! independent state snapshot, so extending one branch can never touch
//! another; that is the mechanism that models forks.

pub mod encoding;
pub mod types;
pub mod crypto;
pub mod state;
pub mod action;
pub mod block;
pub mod timelines;
pub mod laws;
