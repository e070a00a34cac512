//! A deterministic ledger state-transition engine.
//!
//! Signed actions arrive with an already-authenticated caller identity and a
//! logical timestamp; each module validates its invariants against the current
//! state and either mutates the state and appends events, or returns a typed
//! rejection with no side effects.

use vstd::prelude::*;

pub mod coin;
pub mod ledger;
pub mod platform;
pub mod social;
pub mod store;
pub mod voting;

verus! {

/// An authenticated caller identity: an opaque comparable value.
pub type AccountId = u64;

} // verus!
