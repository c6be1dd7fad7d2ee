//! Consensus validation for a Bitcoin node that keeps a Utreexo accumulator
//! instead of the full UTXO set.

pub mod params;
pub mod types;
pub mod encode;
pub mod merkle;
pub mod script;
pub mod consensus;
pub mod tx_validation;
pub mod block_validation;
pub mod accumulator;
pub mod chain;
pub mod daemon;
pub mod rpc;
