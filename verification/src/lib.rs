//! A minimal ledger-style state machine: independent pallets own slices of the
//! global state, a runtime routes calls to them, and blocks of extrinsics are
//! applied in order with per-extrinsic failure isolation.

pub mod balances;
mod numeric;
pub mod proof_of_existance;
pub mod runtime;
pub mod storage;
pub mod support;
pub mod system;
pub mod types;
