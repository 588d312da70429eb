//! Execution events of MCP tool calls, their digests and ledger leaves.

use vstd::prelude::*;
use vstd::string::StringSliceAdditionalSpecFns;
use vstd::utf8::encode_utf8;
use crate::field::{Fr, u64_to_fr};
use crate::poseidon::{fr_vals, spec_hash_bytes, spec_hash_many, poseidon_hash_bytes, poseidon_hash_many};
use crate::json::{JsonValue, JsonModel, push_text};
use crate::ids::{random_uuid, now_unix_seconds, uuid_v4_bits};

verus! {

/// Identity commitment of the executing AI agent.
#[derive(Debug, PartialEq, Eq)]
pub struct AgentIdentity {
    /// Agent identifier or service account name.
    pub agent_id: String,
    /// Public identity commitment `Poseidon(agent_id ":" organization)`.
    pub pubkey_hash: Fr,
    /// Enterprise organization or tenant name.
    pub organization: String,
}

/// The bytes of the text `agent_id:organization`.
pub open spec fn agent_seed(agent_id: Seq<char>, organization: Seq<char>) -> Seq<u8> {
    encode_utf8(agent_id) + seq![58u8] + encode_utf8(organization)
}

impl AgentIdentity {
    /// Builds an identity whose commitment is the Poseidon byte hash of
    /// `agent_id:organization`.
    pub fn new(agent_id: &str, organization: &str) -> (r: AgentIdentity)
        ensures
            r.agent_id@ == agent_id@,
            r.organization@ == organization@,
            r.pubkey_hash.val() == spec_hash_bytes(agent_seed(agent_id@, organization@)),
    {
        let mut seed: Vec<u8> = Vec::new();
        push_text(&mut seed, agent_id);
        seed.push(58u8);
        push_text(&mut seed, organization);
        assert(seed@ =~= agent_seed(agent_id@, organization@));
        let pubkey_hash = poseidon_hash_bytes(seed.as_slice());
        AgentIdentity {
            agent_id: String::from_str(agent_id),
            pubkey_hash,
            organization: String::from_str(organization),
        }
    }
}

impl Clone for AgentIdentity {
    fn clone(&self) -> (r: Self)
        ensures
            r == *self,
    {
        AgentIdentity {
            agent_id: self.agent_id.clone(),
            pubkey_hash: self.pubkey_hash,
            organization: self.organization.clone(),
        }
    }
}

/// Outcome of an MCP tool invocation.
#[derive(Clone, Copy, Debug, PartialEq, Eq, Structural)]
pub enum ExecutionStatus {
    /// Execution succeeded within policy constraints.
    Success,
    /// Execution was rejected for violating a policy constraint.
    PolicyViolation,
    /// The tool raised an internal error.
    ExecutionFailed,
    /// The tool invocation timed out.
    Timeout,
}

impl ExecutionStatus {
    /// The numeric result code of the status.
    pub open spec fn spec_code(self) -> u32 {
        match self {
            ExecutionStatus::Success => 0,
            ExecutionStatus::PolicyViolation => 1,
            ExecutionStatus::ExecutionFailed => 2,
            ExecutionStatus::Timeout => 3,
        }
    }

    /// The numeric result code: 0 success, 1 policy violation, 2 failure,
    /// 3 timeout.
    pub fn code(&self) -> (c: u32)
        ensures
            c == self.spec_code(),
    {
        match self {
            ExecutionStatus::Success => 0,
            ExecutionStatus::PolicyViolation => 1,
            ExecutionStatus::ExecutionFailed => 2,
            ExecutionStatus::Timeout => 3,
        }
    }
}

/// Cryptographic digest of one tool execution.
#[derive(Clone, Copy, Debug, PartialEq, Eq, Structural)]
pub struct ExecutionDigest {
    /// Poseidon hash of the tool name.
    pub tool_id_hash: Fr,
    /// Commitment to the raw parameters.
    pub param_digest: Fr,
    /// Numeric result code (0 is success).
    pub result_code: u32,
    /// UTC timestamp in seconds.
    pub timestamp: i64,
    /// Execution session nonce.
    pub session_id: Fr,
}

impl ExecutionDigest {
    /// `Poseidon(tool_id_hash, param_digest, result_code, timestamp, session_id)`,
    /// the timestamp taken as its two's-complement 64-bit pattern.
    pub open spec fn spec_commitment(self) -> nat {
        spec_hash_many(seq![
            self.tool_id_hash.val(),
            self.param_digest.val(),
            self.result_code as nat,
            (self.timestamp as u64) as nat,
            self.session_id.val(),
        ])
    }

    /// Computes the single field commitment of this digest.
    pub fn compute_commitment(&self) -> (r: Fr)
        ensures
            r.val() == self.spec_commitment(),
    {
        let ts_fr = u64_to_fr(self.timestamp as u64);
        let rc_fr = u64_to_fr(self.result_code as u64);
        let inputs = [self.tool_id_hash, self.param_digest, rc_fr, ts_fr, self.session_id];
        assert(fr_vals(inputs@) =~= seq![
            self.tool_id_hash.val(),
            self.param_digest.val(),
            self.result_code as nat,
            (self.timestamp as u64) as nat,
            self.session_id.val(),
        ]);
        poseidon_hash_many(&inputs)
    }
}

/// A logged execution event, ready for witness generation.
#[derive(Debug)]
pub struct ExecutionEvent {
    /// Unique event UUID, as its 128-bit integer.
    pub event_id: u128,
    /// Session identifier.
    pub session_id: Fr,
    /// Identity of the executing agent.
    pub agent: AgentIdentity,
    /// Target MCP tool name.
    pub tool_name: String,
    /// Sanitized tool parameters kept for auditors.
    pub masked_parameters: JsonValue,
    /// Poseidon byte hash of the raw parameter JSON.
    pub raw_param_digest: Fr,
    /// Execution outcome.
    pub status: ExecutionStatus,
    /// Cryptographic execution digest.
    pub digest: ExecutionDigest,
    /// UTC timestamp of occurrence.
    pub timestamp: i64,
}

impl ExecutionEvent {
    /// The ledger leaf `Poseidon(agent.pubkey_hash, session_id, digest commitment)`.
    pub open spec fn spec_leaf(self) -> nat {
        spec_hash_many(seq![self.agent.pubkey_hash.val(), self.session_id.val(), self.digest.spec_commitment()])
    }

    /// Two events carry the same content.
    pub open spec fn same_content(self, other: ExecutionEvent) -> bool {
        &&& self.event_id == other.event_id
        &&& self.session_id == other.session_id
        &&& self.agent == other.agent
        &&& self.tool_name == other.tool_name
        &&& self.masked_parameters@ == other.masked_parameters@
        &&& self.raw_param_digest == other.raw_param_digest
        &&& self.status == other.status
        &&& self.digest == other.digest
        &&& self.timestamp == other.timestamp
    }

    /// The event recorded for these inputs under the given id and time: the
    /// tool id hash and the parameter digest are Poseidon byte hashes, the
    /// digest carries the status code, the time and the session.
    pub open spec fn recorded_as(
        self,
        agent: AgentIdentity,
        session_id: Fr,
        tool_name: Seq<char>,
        raw_params_json: Seq<u8>,
        masked_parameters: JsonModel,
        status: ExecutionStatus,
        event_id: u128,
        timestamp: i64,
    ) -> bool {
        &&& self.event_id == event_id
        &&& self.session_id == session_id
        &&& self.agent == agent
        &&& self.tool_name@ == tool_name
        &&& self.masked_parameters@ == masked_parameters
        &&& self.raw_param_digest.val() == spec_hash_bytes(raw_params_json)
        &&& self.status == status
        &&& self.digest.tool_id_hash.val() == spec_hash_bytes(encode_utf8(tool_name))
        &&& self.digest.param_digest == self.raw_param_digest
        &&& self.digest.result_code == status.spec_code()
        &&& self.digest.timestamp == timestamp
        &&& self.digest.session_id == session_id
        &&& self.timestamp == timestamp
    }

    /// Records an execution under a fresh random event id at the current time.
    pub fn new(
        agent: AgentIdentity,
        session_id: Fr,
        tool_name: &str,
        raw_params_json: &[u8],
        masked_parameters: JsonValue,
        status: ExecutionStatus,
    ) -> (r: ExecutionEvent)
        ensures
            r.recorded_as(agent, session_id, tool_name@, raw_params_json@, masked_parameters@, status, r.event_id, r.timestamp),
            uuid_v4_bits(r.event_id),
            r.timestamp >= 0,
    {
        let timestamp = now_unix_seconds();
        let event_id = random_uuid();
        Self::new_at(agent, session_id, tool_name, raw_params_json, masked_parameters, status, event_id, timestamp)
    }

    /// Records an execution under the given event id and timestamp.
    pub fn new_at(
        agent: AgentIdentity,
        session_id: Fr,
        tool_name: &str,
        raw_params_json: &[u8],
        masked_parameters: JsonValue,
        status: ExecutionStatus,
        event_id: u128,
        timestamp: i64,
    ) -> (r: ExecutionEvent)
        ensures
            r.recorded_as(agent, session_id, tool_name@, raw_params_json@, masked_parameters@, status, event_id, timestamp),
    {
        let tool_id_hash = poseidon_hash_bytes(tool_name.as_bytes());
        let raw_param_digest = poseidon_hash_bytes(raw_params_json);
        let result_code = status.code();
        let digest = ExecutionDigest {
            tool_id_hash,
            param_digest: raw_param_digest,
            result_code,
            timestamp,
            session_id,
        };
        ExecutionEvent {
            event_id,
            session_id,
            agent,
            tool_name: String::from_str(tool_name),
            masked_parameters,
            raw_param_digest,
            status,
            digest,
            timestamp,
        }
    }

    /// Computes the leaf hashed into the append-only Merkle ledger.
    pub fn compute_ledger_leaf(&self) -> (r: Fr)
        ensures
            r.val() == self.spec_leaf(),
    {
        let digest_commitment = self.digest.compute_commitment();
        let inputs = [self.agent.pubkey_hash, self.session_id, digest_commitment];
        assert(fr_vals(inputs@) =~= seq![self.agent.pubkey_hash.val(), self.session_id.val(), self.digest.spec_commitment()]);
        poseidon_hash_many(&inputs)
    }
}

impl Clone for ExecutionEvent {
    fn clone(&self) -> (r: Self)
        ensures
            r.same_content(*self),
    {
        ExecutionEvent {
            event_id: self.event_id,
            session_id: self.session_id,
            agent: self.agent.clone(),
            tool_name: self.tool_name.clone(),
            masked_parameters: self.masked_parameters.deep_copy(),
            raw_param_digest: self.raw_param_digest,
            status: self.status,
            digest: self.digest,
            timestamp: self.timestamp,
        }
    }
}

} // verus!
