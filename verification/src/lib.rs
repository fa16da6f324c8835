//! Deterministic load-generation engine for EVM-compatible networks.
//!
//! The crate covers the spam execution core: deterministic signer
//! derivation from a seed, named signer pools, trigger-driven wave
//! scheduling, per-transaction and per-batch callback hooks, the
//! single-writer transaction-result actor, and the run store that keeps
//! flushed outcome records apart by run id.

pub mod actor;
pub mod admin;
pub mod callback;
pub mod crypto;
pub mod dec;
pub mod pool;
pub mod errors;
pub mod hex;
pub mod seed;
pub mod spammer;
