//! Execution-side and verification-side rules of a zero-knowledge rollup
//! transaction: the kernel's event protocol, the execution host's bookkeeping,
//! account deltas, the executor's pipeline decisions and the proof verifier.

pub mod account_delta;
pub mod asset;
pub mod errors;
pub mod events;
pub mod executor;
pub mod host;
pub mod kernel;
pub mod merkle;
pub mod proof_verifier;
pub mod transaction;
pub mod vault_delta;
pub mod word;
