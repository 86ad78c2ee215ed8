//! Validation of blocks against the chain, the on-chain rules and the
//! transaction executor.

pub mod batches;
pub mod block;
pub mod block_laws;
pub mod check_laws;
pub mod duplicates;
pub mod error;
pub mod execution_laws;
pub mod laws;
pub mod permission;
pub mod processor;
pub mod processor_laws;
pub mod promises;
pub mod result;
pub mod rules;
pub mod sequences;
pub mod service;
pub mod store;
pub mod store_laws;
pub mod text;
pub mod validator;
pub mod worker;
