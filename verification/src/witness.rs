//! Witness synthesis: turning an execution event and a policy into the
//! assignment of the execution-policy circuit, and the receipt around a proof.

use vstd::prelude::*;
use vstd::arithmetic::power2::pow2;
use crate::error::ProverError;
use crate::execution::ExecutionEvent;
use crate::field::{Fr, u64_to_fr};
use crate::json::{JsonModel, JsonValue};
use crate::ledger::proves_leaf;
use crate::merkle::{MerkleProof, MerkleTree, spec_root};
use crate::policy::{ConstraintType, ParamConstraint, PolicyRule, PolicyTree, rule_index, spec_rule_leaf, spec_rule_leaves};
use crate::poseidon::{poseidon_hash_bytes, spec_hash_bytes};

verus! {

/// The assignment of the execution-policy circuit: five public inputs and
/// the private witnesses, each present or missing.
#[derive(Clone, Debug)]
pub struct ExecutionPolicyCircuit {
    /// Committed policy Merkle root (public).
    pub policy_root_hash: Option<Fr>,
    /// Execution digest commitment (public).
    pub execution_digest: Option<Fr>,
    /// Agent identity commitment (public).
    pub agent_pubkey_hash: Option<Fr>,
    /// Session nonce (public).
    pub session_id: Option<Fr>,
    /// Upper bound of the timestamp window (public).
    pub timestamp_window: Option<Fr>,
    /// Poseidon hash of the tool name (private).
    pub tool_id_hash: Option<Fr>,
    /// Commitment to the raw parameters (private).
    pub param_digest: Option<Fr>,
    /// Poseidon hash of the raw prompt (private).
    pub raw_prompt_hash: Option<Fr>,
    /// Leaf of the applicable policy rule (private).
    pub rule_leaf: Option<Fr>,
    /// Inclusion path of the rule leaf in the policy tree (private).
    pub policy_proof: Option<MerkleProof>,
    /// Numeric parameter value to bound (private).
    pub param_value: Option<u64>,
    /// Upper bound on that value from the policy (private).
    pub param_max_bound: Option<u64>,
    /// Numeric result code (private).
    pub result_code: Option<u32>,
    /// Execution timestamp (private).
    pub timestamp: Option<i64>,
}

impl Default for ExecutionPolicyCircuit {
    /// The assignment with every wire missing.
    fn default() -> (c: Self)
        ensures
            c.policy_root_hash is None && c.execution_digest is None && c.agent_pubkey_hash is None,
            c.session_id is None && c.timestamp_window is None && c.tool_id_hash is None,
            c.param_digest is None && c.raw_prompt_hash is None && c.rule_leaf is None,
            c.policy_proof is None && c.param_value is None && c.param_max_bound is None,
            c.result_code is None && c.timestamp is None,
    {
        ExecutionPolicyCircuit {
            policy_root_hash: None,
            execution_digest: None,
            agent_pubkey_hash: None,
            session_id: None,
            timestamp_window: None,
            tool_id_hash: None,
            param_digest: None,
            raw_prompt_hash: None,
            rule_leaf: None,
            policy_proof: None,
            param_value: None,
            param_max_bound: None,
            result_code: None,
            timestamp: None,
        }
    }
}

/// Witness synthesis engine.
pub struct WitnessSynthesizer;

/// The upper bound a constraint puts on a numeric parameter, if any.
pub open spec fn numeric_bound(c: ConstraintType) -> Option<u64> {
    match c {
        ConstraintType::MaxSpendLimit { max_amount } => Some(max_amount),
        ConstraintType::NumericRange { min, max } => Some(max),
        _ => None,
    }
}

/// One step of gathering: a bounding constraint sets the bound, and sets
/// the value when the argument it names is a non-negative integer.
pub open spec fn gather_step(c: ParamConstraint, args: JsonModel, prev: (Option<u64>, Option<u64>)) -> (Option<u64>, Option<u64>) {
    match numeric_bound(c.constraint) {
        Some(m) => {
            let v = match args.spec_get(c.param_name@) {
                Some(a) => match a.spec_as_u64() {
                    Some(n) => Some(n),
                    None => prev.0,
                },
                None => prev.0,
            };
            (v, Some(m))
        },
        None => prev,
    }
}

/// The parameter value and bound gathered from a rule's constraints, in order.
pub open spec fn gathered_params(cs: Seq<ParamConstraint>, args: JsonModel) -> (Option<u64>, Option<u64>)
    decreases cs.len(),
{
    if cs.len() == 0 {
        (None, None)
    } else {
        gather_step(cs.last(), args, gathered_params(cs.drop_last(), args))
    }
}

/// `o` holds a field element whose value is `v`.
pub open spec fn holds_val(o: Option<Fr>, v: nat) -> bool {
    o matches Some(x) && x.val() == v
}

impl WitnessSynthesizer {
    /// The circuit assignment synthesized for an event under a policy, a
    /// tree depth, an optional prompt and a timestamp window.
    pub open spec fn synthesized(
        c: ExecutionPolicyCircuit,
        event: ExecutionEvent,
        policy_tree: PolicyTree,
        tree_depth: nat,
        raw_prompt: Option<Seq<u8>>,
        timestamp_window_secs: u64,
    ) -> bool {
        let rules = policy_tree.rules@;
        let rule = rules[rule_index(rules, event.tool_name@)->0];
        let leaves = spec_rule_leaves(rules);
        let gathered = gathered_params(rule.constraints@, event.masked_parameters@);
        &&& holds_val(c.policy_root_hash, spec_root(leaves, tree_depth))
        &&& holds_val(c.execution_digest, event.digest.spec_commitment())
        &&& c.agent_pubkey_hash == Some(event.agent.pubkey_hash)
        &&& c.session_id == Some(event.session_id)
        &&& holds_val(c.timestamp_window, ((event.timestamp as u64) + timestamp_window_secs) as nat)
        &&& c.tool_id_hash == Some(event.digest.tool_id_hash)
        &&& c.param_digest == Some(event.raw_param_digest)
        &&& match raw_prompt {
            Some(p) => holds_val(c.raw_prompt_hash, spec_hash_bytes(p)),
            None => c.raw_prompt_hash is None,
        }
        &&& holds_val(c.rule_leaf, spec_rule_leaf(rule))
        &&& c.policy_proof matches Some(p) && proves_leaf(p, leaves, rule_index(rules, event.tool_name@)->0 as nat, tree_depth)
        &&& c.param_value == gathered.0
        &&& c.param_max_bound == gathered.1
        &&& c.result_code == Some(event.digest.result_code)
        &&& c.timestamp == Some(event.timestamp)
    }

    /// Synthesizes the circuit assignment for an event: finds the event's
    /// rule, builds the policy Merkle tree and the rule's inclusion path,
    /// gathers the bounded parameter, and computes the public commitments.
    /// Fails with a policy violation for a tool the policy does not list,
    /// and with a witness error when the rules do not fit the tree.
    pub fn synthesize(
        event: &ExecutionEvent,
        policy_tree: &PolicyTree,
        tree_depth: usize,
        raw_prompt: Option<&[u8]>,
        timestamp_window_secs: u64,
    ) -> (r: Result<ExecutionPolicyCircuit, ProverError>)
        requires
            1 <= tree_depth <= 32,
            (event.timestamp as u64) + timestamp_window_secs <= u64::MAX,
        ensures
            rule_index(policy_tree.rules@, event.tool_name@) is None ==> (r matches Err(e) && e is PolicyViolation
                && e->PolicyViolation_0@ == "Tool '"@ + event.tool_name@ + "' is not whitelisted in policy '"@
                + policy_tree.policy_id@ + "'"@),
            rule_index(policy_tree.rules@, event.tool_name@) is Some && policy_tree.rules@.len() > pow2(
                tree_depth as nat,
            ) ==> (r matches Err(e) && e is WitnessError),
            r is Ok <==> rule_index(policy_tree.rules@, event.tool_name@) is Some && policy_tree.rules@.len()
                <= pow2(tree_depth as nat),
            r matches Ok(c) ==> Self::synthesized(
                c,
                *event,
                *policy_tree,
                tree_depth as nat,
                match raw_prompt {
                    Some(p) => Some(p@),
                    None => None,
                },
                timestamp_window_secs,
            ),
    {
        let rule = match policy_tree.get_rule(event.tool_name.as_str()) {
            Some(rule) => rule,
            None => {
                let mut msg = String::from_str("Tool '");
                msg.append(event.tool_name.as_str());
                msg.append("' is not whitelisted in policy '");
                msg.append(policy_tree.policy_id.as_str());
                msg.append("'");
                return Err(ProverError::PolicyViolation(msg));
            },
        };
        let (policy_root, policy_proof) = match policy_root_and_path(policy_tree, event.tool_name.as_str(), tree_depth) {
            Ok(pair) => pair,
            Err(e) => return Err(e),
        };
        let (param_val, param_max) = gather_params(rule, &event.masked_parameters);
        let raw_prompt_hash = match raw_prompt {
            Some(p) => Some(poseidon_hash_bytes(p)),
            None => None,
        };
        let execution_digest = event.digest.compute_commitment();
        let timestamp_window = u64_to_fr((event.timestamp as u64) + timestamp_window_secs);
        let rule_leaf = rule.compute_leaf();
        Ok(ExecutionPolicyCircuit {
            policy_root_hash: Some(policy_root),
            execution_digest: Some(execution_digest),
            agent_pubkey_hash: Some(event.agent.pubkey_hash),
            session_id: Some(event.session_id),
            timestamp_window: Some(timestamp_window),
            tool_id_hash: Some(event.digest.tool_id_hash),
            param_digest: Some(event.raw_param_digest),
            raw_prompt_hash,
            rule_leaf: Some(rule_leaf),
            policy_proof: Some(policy_proof),
            param_value: param_val,
            param_max_bound: param_max,
            result_code: Some(event.digest.result_code),
            timestamp: Some(event.timestamp),
        })
    }
}

/// The policy root over the rule leaves and the inclusion path of the first
/// rule for `tool_name`, the rule whose leaf the circuit carries.
fn policy_root_and_path(policy_tree: &PolicyTree, tool_name: &str, tree_depth: usize) -> (r: Result<(Fr, MerkleProof), ProverError>)
    requires
        1 <= tree_depth <= 32,
        rule_index(policy_tree.rules@, tool_name@) is Some,
    ensures
        r is Ok <==> policy_tree.rules@.len() <= pow2(tree_depth as nat),
        r matches Err(e) ==> e is WitnessError,
        r matches Ok((root, p)) ==> {
            let leaves = spec_rule_leaves(policy_tree.rules@);
            &&& root.val() == spec_root(leaves, tree_depth as nat)
            &&& proves_leaf(p, leaves, rule_index(policy_tree.rules@, tool_name@)->0 as nat, tree_depth as nat)
        },
{
    let ghost rules = policy_tree.rules@;
    let mut merkle_tree = MerkleTree::new(tree_depth);
    let mut target_leaf_index: Option<usize> = None;
    let mut idx: usize = 0;
    while idx < policy_tree.rules.len()
        invariant
            idx <= rules.len(),
            rules == policy_tree.rules@,
            idx <= pow2(tree_depth as nat),
            merkle_tree.spec_depth() == tree_depth,
            merkle_tree.leaf_values() == spec_rule_leaves(rules.take(idx as int)),
            target_leaf_index matches Some(t) ==> t < idx && rules[t as int].tool_name@ == tool_name@
                && forall|j: int| 0 <= j < t ==> (#[trigger] rules[j]).tool_name@ != tool_name@,
            target_leaf_index is None ==> forall|j: int| 0 <= j < idx ==> (#[trigger] rules[j]).tool_name@ != tool_name@,
        decreases rules.len() - idx,
    {
        let r = &policy_tree.rules[idx];
        let leaf = r.compute_leaf();
        match merkle_tree.insert(leaf) {
            Ok(_) => {},
            Err(e) => {
                let mut msg = String::from_str("Failed to insert rule leaf: ");
                msg.append(e.message().as_str());
                return Err(ProverError::WitnessError(msg));
            },
        }
        proof {
            assert(rules.take(idx + 1).drop_last() =~= rules.take(idx as int));
            assert(spec_rule_leaves(rules.take(idx + 1)) =~= spec_rule_leaves(rules.take(idx as int)).push(leaf.val()));
        }
        if target_leaf_index.is_none() && crate::json::str_eq(r.tool_name.as_str(), tool_name) {
            target_leaf_index = Some(idx);
        }
        idx = idx + 1;
    }
    proof {
        assert(rules.take(idx as int) =~= rules);
        if let Some(t) = target_leaf_index {
            lemma_first_match_is_rule_index(rules, tool_name@, t as int);
        }
    }
    let leaf_idx = match target_leaf_index {
        Some(i) => i,
        None => {
            return Err(ProverError::WitnessError(String::from_str("Target rule leaf index not found")));
        },
    };
    let policy_root = merkle_tree.root();
    let policy_proof = match merkle_tree.generate_proof(leaf_idx) {
        Ok(p) => p,
        Err(e) => {
            let mut msg = String::from_str("Failed to generate policy Merkle proof: ");
            msg.append(e.message().as_str());
            return Err(ProverError::WitnessError(msg));
        },
    };
    Ok((policy_root, policy_proof))
}

/// One gathering step over a constraint.
fn gather_one(c: &ParamConstraint, masked: &JsonValue, prev: (Option<u64>, Option<u64>)) -> (r: (Option<u64>, Option<u64>))
    ensures
        r == gather_step(*c, masked@, prev),
{
    let bound = match &c.constraint {
        ConstraintType::MaxSpendLimit { max_amount } => Some(*max_amount),
        ConstraintType::NumericRange { min: _, max } => Some(*max),
        _ => None,
    };
    match bound {
        Some(m) => {
            let v = match masked.get(c.param_name.as_str()) {
                Some(val) => match val.as_u64() {
                    Some(num) => Some(num),
                    None => prev.0,
                },
                None => prev.0,
            };
            (v, Some(m))
        },
        None => prev,
    }
}

/// The parameter value and bound gathered from a rule's constraints.
fn gather_params(rule: &PolicyRule, masked: &JsonValue) -> (r: (Option<u64>, Option<u64>))
    ensures
        r == gathered_params(rule.constraints@, masked@),
{
    let mut acc: (Option<u64>, Option<u64>) = (None, None);
    let mut k: usize = 0;
    while k < rule.constraints.len()
        invariant
            k <= rule.constraints@.len(),
            acc == gathered_params(rule.constraints@.take(k as int), masked@),
        decreases rule.constraints@.len() - k,
    {
        proof {
            assert(rule.constraints@.take(k + 1).drop_last() =~= rule.constraints@.take(k as int));
        }
        acc = gather_one(&rule.constraints[k], masked, acc);
        k = k + 1;
    }
    proof {
        assert(rule.constraints@.take(k as int) =~= rule.constraints@);
    }
    acc
}

/// The synthesized policy path leads from the synthesized rule leaf to the
/// synthesized policy root: the leaf and the path come from the same rule.
pub proof fn lemma_rule_path_verifies(
    c: ExecutionPolicyCircuit,
    event: ExecutionEvent,
    policy_tree: PolicyTree,
    tree_depth: nat,
    raw_prompt: Option<Seq<u8>>,
    timestamp_window_secs: u64,
)
    requires
        WitnessSynthesizer::synthesized(c, event, policy_tree, tree_depth, raw_prompt, timestamp_window_secs),
        rule_index(policy_tree.rules@, event.tool_name@) is Some,
        policy_tree.rules@.len() <= pow2(tree_depth),
    ensures
        c.policy_proof->0.spec_compute_root(c.rule_leaf->0.val()) == c.policy_root_hash->0.val(),
{
    let rules = policy_tree.rules@;
    let name = event.tool_name@;
    let w = choose|i: int| 0 <= i < rules.len() && (#[trigger] rules[i]).tool_name@ == name;
    lemma_first_match_exists(rules, name, w);
    let first = rule_index(rules, name)->0;
    let leaves = spec_rule_leaves(rules);
    crate::merkle::lemma_inclusion_proof_complete(leaves, tree_depth, first as nat);
}

/// A tool listed among the rules has a first position among them.
proof fn lemma_first_match_exists(rules: Seq<PolicyRule>, tool_name: Seq<char>, w: int)
    requires
        0 <= w < rules.len(),
        rules[w].tool_name@ == tool_name,
    ensures
        exists|t: int|
            0 <= t < rules.len() && (#[trigger] rules[t]).tool_name@ == tool_name && forall|j: int|
                0 <= j < t ==> (#[trigger] rules[j]).tool_name@ != tool_name,
    decreases w,
{
    if exists|j: int| 0 <= j < w && (#[trigger] rules[j]).tool_name@ == tool_name {
        let j = choose|j: int| 0 <= j < w && (#[trigger] rules[j]).tool_name@ == tool_name;
        lemma_first_match_exists(rules, tool_name, j);
    } else {
        assert(forall|j: int| 0 <= j < w ==> (#[trigger] rules[j]).tool_name@ != tool_name);
    }
}

/// A position holding a rule for the tool, with no such rule before it, is
/// the rule's index.
proof fn lemma_first_match_is_rule_index(rules: Seq<PolicyRule>, tool_name: Seq<char>, t: int)
    requires
        0 <= t < rules.len(),
        rules[t].tool_name@ == tool_name,
        forall|j: int| 0 <= j < t ==> (#[trigger] rules[j]).tool_name@ != tool_name,
    ensures
        rule_index(rules, tool_name) == Some(t),
{
    let c = choose|k: int|
        0 <= k < rules.len() && (#[trigger] rules[k]).tool_name@ == tool_name && forall|j: int|
            0 <= j < k ==> (#[trigger] rules[j]).tool_name@ != tool_name;
    assert(0 <= t < rules.len() && rules[t].tool_name@ == tool_name && forall|j: int|
        0 <= j < t ==> (#[trigger] rules[j]).tool_name@ != tool_name);
    if c < t {
        assert(rules[c].tool_name@ != tool_name);
    } else if c > t {
        assert(rules[t].tool_name@ != tool_name);
    }
}

} // verus!
