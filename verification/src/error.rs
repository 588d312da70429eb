//! Error types of the audit-trail library.

use vstd::prelude::*;

verus! {

/// Errors of the field, hashing, Merkle and domain-type layer.
#[derive(Debug, Clone, PartialEq, Eq)]
pub enum CoreError {
    /// Error during finite field element conversion or parsing.
    FieldError(String),
    /// Error during cryptographic hashing or sponge operations.
    HashError(String),
    /// Error during Merkle tree operations or proof verification.
    MerkleError(String),
    /// Error during canonical serialization or deserialization.
    SerializationError(String),
    /// Policy constraint violation or parsing error.
    PolicyError(String),
    /// Invalid execution event or parameter structure.
    ExecutionError(String),
    /// Cryptographic proof or verification failure.
    VerificationError(String),
    /// General internal or unexpected error.
    InternalError(String),
}

/// Errors of circuit synthesis and constraint enforcement.
#[derive(Debug, Clone, PartialEq, Eq)]
pub enum CircuitError {
    /// R1CS synthesis error.
    SynthesisError(String),
    /// Missing witness assignment for a private wire.
    MissingWitness(String),
    /// Parameter constraint violation inside the circuit.
    ConstraintViolation(String),
    /// Merkle authentication path failure inside the circuit.
    MerklePathError(String),
    /// Error of the core layer.
    Core(CoreError),
}

/// Errors of the append-only ledger, its storage and bundle packaging.
#[derive(Debug, Clone, PartialEq, Eq)]
pub enum LedgerError {
    /// Merkle tree capacity or indexing failure.
    MerkleError(String),
    /// Storage I/O or persistence error.
    StorageError(String),
    /// Bundle packaging or extraction failure.
    BundleError(String),
    /// Serialization or deserialization error.
    Serialization(String),
    /// Error of the core layer.
    Core(CoreError),
}

/// Errors of trusted setup, witness synthesis and proof creation.
#[derive(Debug, Clone, PartialEq, Eq)]
pub enum ProverError {
    /// Error during Groth16 circuit synthesis or proving.
    Groth16ProvingError(String),
    /// Trusted setup key generation or parsing failure.
    SetupError(String),
    /// Witness synthesis error.
    WitnessError(String),
    /// Policy compliance violation encountered during witness generation.
    PolicyViolation(String),
    /// Serialization error.
    Serialization(String),
    /// Error of the core layer.
    Core(CoreError),
    /// Error of the circuit layer.
    Circuit(CircuitError),
}

/// Errors of receipt and proof verification.
#[derive(Debug, Clone, PartialEq, Eq)]
pub enum VerifierError {
    /// Proof deserialization or cryptographic format failure.
    InvalidProofEncoding(String),
    /// Verifying key decoding failure.
    InvalidVerifyingKey(String),
    /// Public input formatting or field conversion failure.
    InvalidPublicInputs(String),
    /// Pairing check or Groth16 verification execution error.
    ExecutionError(String),
    /// Serialization error.
    Serialization(String),
    /// Error of the core layer.
    Core(CoreError),
}

/// Errors of MCP JSON-RPC proxying, protocol parsing and interception.
#[derive(Debug, Clone, PartialEq, Eq)]
pub enum McpError {
    /// Invalid JSON-RPC 2.0 format or message encoding.
    JsonRpcError(String),
    /// Policy constraint violation (tool blocked or out-of-bounds parameter).
    PolicyViolation(String),
    /// Process I/O or transport stream error.
    TransportError(String),
    /// Error of the prover.
    Prover(ProverError),
    /// Error of the ledger.
    Ledger(LedgerError),
    /// Error of the core layer.
    Core(CoreError),
}


/// `prefix` followed by `body`.
fn prefixed(prefix: &str, body: &str) -> (r: String)
    ensures
        r@ == prefix@ + body@,
{
    let mut m = String::from_str(prefix);
    m.append(body);
    m
}

impl CoreError {
    /// The human-readable text of the error.
    pub open spec fn spec_message(self) -> Seq<char> {
        match self {
            CoreError::FieldError(m) => "Field error: "@ + m@,
            CoreError::HashError(m) => "Hash error: "@ + m@,
            CoreError::MerkleError(m) => "Merkle tree error: "@ + m@,
            CoreError::SerializationError(m) => "Serialization error: "@ + m@,
            CoreError::PolicyError(m) => "Policy error: "@ + m@,
            CoreError::ExecutionError(m) => "Execution error: "@ + m@,
            CoreError::VerificationError(m) => "Verification error: "@ + m@,
            CoreError::InternalError(m) => "Internal error: "@ + m@,
        }
    }

    /// Renders the error as text: its kind, a colon, and its detail.
    pub fn message(&self) -> (r: String)
        ensures
            r@ == self.spec_message(),
    {
        match self {
            CoreError::FieldError(m) => prefixed("Field error: ", m.as_str()),
            CoreError::HashError(m) => prefixed("Hash error: ", m.as_str()),
            CoreError::MerkleError(m) => prefixed("Merkle tree error: ", m.as_str()),
            CoreError::SerializationError(m) => prefixed("Serialization error: ", m.as_str()),
            CoreError::PolicyError(m) => prefixed("Policy error: ", m.as_str()),
            CoreError::ExecutionError(m) => prefixed("Execution error: ", m.as_str()),
            CoreError::VerificationError(m) => prefixed("Verification error: ", m.as_str()),
            CoreError::InternalError(m) => prefixed("Internal error: ", m.as_str()),
        }
    }
}

impl CircuitError {
    /// The human-readable text of the error.
    pub open spec fn spec_message(self) -> Seq<char> {
        match self {
            CircuitError::SynthesisError(m) => "R1CS synthesis error: "@ + m@,
            CircuitError::MissingWitness(m) => "Missing witness: "@ + m@,
            CircuitError::ConstraintViolation(m) => "Constraint violation: "@ + m@,
            CircuitError::MerklePathError(m) => "Merkle path verification failed: "@ + m@,
            CircuitError::Core(e) => "Core error: "@ + e.spec_message(),
        }
    }

    /// Renders the error as text: its kind, a colon, and its detail.
    pub fn message(&self) -> (r: String)
        ensures
            r@ == self.spec_message(),
    {
        match self {
            CircuitError::SynthesisError(m) => prefixed("R1CS synthesis error: ", m.as_str()),
            CircuitError::MissingWitness(m) => prefixed("Missing witness: ", m.as_str()),
            CircuitError::ConstraintViolation(m) => prefixed("Constraint violation: ", m.as_str()),
            CircuitError::MerklePathError(m) => prefixed("Merkle path verification failed: ", m.as_str()),
            CircuitError::Core(e) => {
                let inner = e.message();
                prefixed("Core error: ", inner.as_str())
            },
        }
    }
}

impl LedgerError {
    /// The human-readable text of the error.
    pub open spec fn spec_message(self) -> Seq<char> {
        match self {
            LedgerError::MerkleError(m) => "Merkle tree error: "@ + m@,
            LedgerError::StorageError(m) => "Storage error: "@ + m@,
            LedgerError::BundleError(m) => "Bundle error: "@ + m@,
            LedgerError::Serialization(m) => "Serialization error: "@ + m@,
            LedgerError::Core(e) => "Core error: "@ + e.spec_message(),
        }
    }

    /// Renders the error as text: its kind, a colon, and its detail.
    pub fn message(&self) -> (r: String)
        ensures
            r@ == self.spec_message(),
    {
        match self {
            LedgerError::MerkleError(m) => prefixed("Merkle tree error: ", m.as_str()),
            LedgerError::StorageError(m) => prefixed("Storage error: ", m.as_str()),
            LedgerError::BundleError(m) => prefixed("Bundle error: ", m.as_str()),
            LedgerError::Serialization(m) => prefixed("Serialization error: ", m.as_str()),
            LedgerError::Core(e) => {
                let inner = e.message();
                prefixed("Core error: ", inner.as_str())
            },
        }
    }
}

impl ProverError {
    /// The human-readable text of the error.
    pub open spec fn spec_message(self) -> Seq<char> {
        match self {
            ProverError::Groth16ProvingError(m) => "Groth16 proving error: "@ + m@,
            ProverError::SetupError(m) => "Setup parameter error: "@ + m@,
            ProverError::WitnessError(m) => "Witness synthesis failed: "@ + m@,
            ProverError::PolicyViolation(m) => "Policy violation: "@ + m@,
            ProverError::Serialization(m) => "Serialization error: "@ + m@,
            ProverError::Core(e) => "Core error: "@ + e.spec_message(),
            ProverError::Circuit(e) => "Circuit error: "@ + e.spec_message(),
        }
    }

    /// Renders the error as text: its kind, a colon, and its detail.
    pub fn message(&self) -> (r: String)
        ensures
            r@ == self.spec_message(),
    {
        match self {
            ProverError::Groth16ProvingError(m) => prefixed("Groth16 proving error: ", m.as_str()),
            ProverError::SetupError(m) => prefixed("Setup parameter error: ", m.as_str()),
            ProverError::WitnessError(m) => prefixed("Witness synthesis failed: ", m.as_str()),
            ProverError::PolicyViolation(m) => prefixed("Policy violation: ", m.as_str()),
            ProverError::Serialization(m) => prefixed("Serialization error: ", m.as_str()),
            ProverError::Core(e) => {
                let inner = e.message();
                prefixed("Core error: ", inner.as_str())
            },
            ProverError::Circuit(e) => {
                let inner = e.message();
                prefixed("Circuit error: ", inner.as_str())
            },
        }
    }
}

impl VerifierError {
    /// The human-readable text of the error.
    pub open spec fn spec_message(self) -> Seq<char> {
        match self {
            VerifierError::InvalidProofEncoding(m) => "Invalid proof encoding: "@ + m@,
            VerifierError::InvalidVerifyingKey(m) => "Invalid verifying key: "@ + m@,
            VerifierError::InvalidPublicInputs(m) => "Invalid public inputs: "@ + m@,
            VerifierError::ExecutionError(m) => "Verification execution error: "@ + m@,
            VerifierError::Serialization(m) => "Serialization error: "@ + m@,
            VerifierError::Core(e) => "Core error: "@ + e.spec_message(),
        }
    }

    /// Renders the error as text: its kind, a colon, and its detail.
    pub fn message(&self) -> (r: String)
        ensures
            r@ == self.spec_message(),
    {
        match self {
            VerifierError::InvalidProofEncoding(m) => prefixed("Invalid proof encoding: ", m.as_str()),
            VerifierError::InvalidVerifyingKey(m) => prefixed("Invalid verifying key: ", m.as_str()),
            VerifierError::InvalidPublicInputs(m) => prefixed("Invalid public inputs: ", m.as_str()),
            VerifierError::ExecutionError(m) => prefixed("Verification execution error: ", m.as_str()),
            VerifierError::Serialization(m) => prefixed("Serialization error: ", m.as_str()),
            VerifierError::Core(e) => {
                let inner = e.message();
                prefixed("Core error: ", inner.as_str())
            },
        }
    }
}

impl McpError {
    /// The human-readable text of the error.
    pub open spec fn spec_message(self) -> Seq<char> {
        match self {
            McpError::JsonRpcError(m) => "JSON-RPC error: "@ + m@,
            McpError::PolicyViolation(m) => "Policy violation: "@ + m@,
            McpError::TransportError(m) => "Transport error: "@ + m@,
            McpError::Prover(e) => "Prover error: "@ + e.spec_message(),
            McpError::Ledger(e) => "Ledger error: "@ + e.spec_message(),
            McpError::Core(e) => "Core error: "@ + e.spec_message(),
        }
    }

    /// Renders the error as text: its kind, a colon, and its detail.
    pub fn message(&self) -> (r: String)
        ensures
            r@ == self.spec_message(),
    {
        match self {
            McpError::JsonRpcError(m) => prefixed("JSON-RPC error: ", m.as_str()),
            McpError::PolicyViolation(m) => prefixed("Policy violation: ", m.as_str()),
            McpError::TransportError(m) => prefixed("Transport error: ", m.as_str()),
            McpError::Prover(e) => {
                let inner = e.message();
                prefixed("Prover error: ", inner.as_str())
            },
            McpError::Ledger(e) => {
                let inner = e.message();
                prefixed("Ledger error: ", inner.as_str())
            },
            McpError::Core(e) => {
                let inner = e.message();
                prefixed("Core error: ", inner.as_str())
            },
        }
    }
}

} // verus!
