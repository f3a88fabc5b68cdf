//! Reward engine and per-participant state machine of a proof-of-work
//! token-issuance protocol.
//!
//! Every operation here is a pure function over plain values: records are
//! handed in, checked and updated in place, and the caller commits the result
//! to the ledger only when the operation succeeds.
pub mod consts;
pub mod error;
pub mod layout;
pub mod auth;
pub mod state;
pub mod reward;
pub mod solution;
pub mod instruction;
pub mod mine;
pub mod lifecycle;
pub mod upgrade;
