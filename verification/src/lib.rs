//! Verified core of a zero-knowledge audit trail for AI-agent tool calls:
//! BN254 scalar-field elements, Poseidon hashing, incremental Merkle trees,
//! policy commitments, execution digests, an append-only ledger with
//! portable bundles, witness synthesis for the policy circuit, MCP request
//! routing, receipt verification verdicts and the health probe's decisions.

pub mod bytes;
pub mod text;
pub mod error;
pub mod field;
pub mod poseidon;
pub mod merkle;
pub mod json;
pub mod policy;
pub mod ids;
pub mod execution;
pub mod receipt;
pub mod store;
pub mod bundle;
pub mod ledger;
pub mod witness;
pub mod prover;
pub mod mcp;
pub mod receipt_verifier;
pub mod health;
