//! Verified core of a payment-ledger rollup: signed-transfer validation,
//! ledger execution with conservation of supply, batch assembly and its wire
//! codec, data-availability finality tracking, sampling-verification records,
//! and the lifecycle event fan-out.
//!
//! Process edges (HTTP, database, the DA-chain RPC, the light-client
//! subprocess) live outside this library and exchange plain values with it.

pub mod avail;
pub mod batch;
pub mod codec;
pub mod crypto;
pub mod das;
pub mod decimal;
pub mod errors;
pub mod events;
pub mod finality;
pub mod prover;
pub mod state;
pub mod types;
pub mod validation;
