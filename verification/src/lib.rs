//! A deterministic ledger for non-fungible tokens ("tokens") grouped into
//! "classes", together with a marketplace layer for fixed-price sales
//! ("offers") and time-boxed competitive sales ("auctions").
//!
//! The ledger is a state-transition engine: given the current state and one
//! operation from an already-authenticated caller, it either commits the
//! operation atomically or rejects it with a named error, leaving the state
//! provably unchanged. Time is supplied by the host as an explicit argument;
//! the library itself performs no input or output.

pub mod balances;
pub mod errors;
pub mod events;
pub mod ledger;
pub mod types;
