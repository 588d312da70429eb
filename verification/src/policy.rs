//! Policy rules, parameter constraints and the policy Merkle commitment.

use vstd::prelude::*;
use vstd::utf8::encode_utf8;
use vstd::arithmetic::power2::pow2;
use crate::error::CoreError;
use crate::field::{Fr, fr_to_hex, spec_fr_hex};
use crate::json::{json_string, json_u64, push_json_string, push_json_u64, push_text, str_eq};
use crate::merkle::{MerkleTree, spec_root};
use crate::poseidon::{poseidon_hash_2, poseidon_hash_bytes, spec_hash_2, spec_hash_bytes};

verus! {

/// A parameter constraint enforced on tool arguments.
#[derive(Clone, Debug, PartialEq, Eq)]
pub enum ConstraintType {
    /// Numerical value bounded between `min` and `max` (inclusive).
    NumericRange { min: u64, max: u64 },
    /// Exact hash match against an approved parameter commitment.
    ExactMatch { expected_hash: Fr },
    /// Value must be a member of an approved whitelist hash set.
    Whitelist { allowed_hashes: Vec<Fr> },
    /// Spending limit in currency subunits (e.g. cents).
    MaxSpendLimit { max_amount: u64 },
    /// Only read-only operations allowed.
    ReadOnlyOnly,
}

/// A constraint on one named parameter of a tool.
#[derive(Clone, Debug, PartialEq, Eq)]
pub struct ParamConstraint {
    /// The name of the parameter (e.g. "amount", "query").
    pub param_name: String,
    /// The constraint to enforce.
    pub constraint: ConstraintType,
}

/// A policy rule governing one tool.
#[derive(Clone, Debug, PartialEq, Eq)]
pub struct PolicyRule {
    /// Human-readable tool identifier.
    pub tool_name: String,
    /// Poseidon digest of the tool name's bytes.
    pub tool_id_hash: Fr,
    /// Parameter constraints of this rule.
    pub constraints: Vec<ParamConstraint>,
    /// Natural-language description.
    pub description: String,
}

/// A versioned collection of policy rules.
#[derive(Clone, Debug)]
pub struct PolicyTree {
    /// Policy document identifier.
    pub policy_id: String,
    /// Policy version.
    pub version: u32,
    /// Approved rules, in order.
    pub rules: Vec<PolicyRule>,
}

/// A commitment to an active policy.
#[derive(Clone, Debug, PartialEq, Eq)]
pub struct PolicyCommitment {
    /// The Merkle root of the policy tree.
    pub root_hash: Fr,
    /// Policy identifier.
    pub policy_id: String,
    /// Policy version.
    pub version: u32,
    /// Creation time (UTC seconds).
    pub created_at: i64,
}

/// A JSON string holding the `0x` hex of a field element.
pub open spec fn json_fr(f: Fr) -> Seq<u8> {
    json_string(encode_utf8(spec_fr_hex(f.val())))
}

/// Comma-separated concatenation.
pub open spec fn json_join(items: Seq<Seq<u8>>) -> Seq<u8>
    decreases items.len(),
{
    if items.len() == 0 {
        seq![]
    } else if items.len() == 1 {
        items[0]
    } else {
        json_join(items.drop_last()) + seq![44u8] + items.last()
    }
}

/// A JSON array of the given encoded elements.
pub open spec fn json_array(items: Seq<Seq<u8>>) -> Seq<u8> {
    seq![91u8] + json_join(items) + seq![93u8]
}

/// The compact JSON of a constraint, adjacently tagged by `type` and `config`.
pub open spec fn json_constraint_type(c: ConstraintType) -> Seq<u8> {
    match c {
        ConstraintType::NumericRange { min, max } => encode_utf8("{\"type\":\"NumericRange\",\"config\":{\"min\":"@)
            + json_u64(min as nat) + encode_utf8(",\"max\":"@) + json_u64(max as nat) + encode_utf8("}}"@),
        ConstraintType::ExactMatch { expected_hash } => encode_utf8(
            "{\"type\":\"ExactMatch\",\"config\":{\"expected_hash\":"@,
        ) + json_fr(expected_hash) + encode_utf8("}}"@),
        ConstraintType::Whitelist { allowed_hashes } => encode_utf8(
            "{\"type\":\"Whitelist\",\"config\":{\"allowed_hashes\":"@,
        ) + json_array(allowed_hashes@.map_values(|f: Fr| json_fr(f))) + encode_utf8("}}"@),
        ConstraintType::MaxSpendLimit { max_amount } => encode_utf8(
            "{\"type\":\"MaxSpendLimit\",\"config\":{\"max_amount\":"@,
        ) + json_u64(max_amount as nat) + encode_utf8("}}"@),
        ConstraintType::ReadOnlyOnly => encode_utf8("{\"type\":\"ReadOnlyOnly\"}"@),
    }
}

/// The compact JSON of a parameter constraint.
pub open spec fn json_param_constraint(p: ParamConstraint) -> Seq<u8> {
    encode_utf8("{\"param_name\":"@) + json_string(encode_utf8(p.param_name@)) + encode_utf8(
        ",\"constraint\":"@,
    ) + json_constraint_type(p.constraint) + encode_utf8("}"@)
}

/// The compact JSON of a list of parameter constraints.
pub open spec fn json_constraints(v: Seq<ParamConstraint>) -> Seq<u8> {
    json_array(v.map_values(|p: ParamConstraint| json_param_constraint(p)))
}

/// The leaf committing to a rule: `H(tool_id_hash, Poseidon(JSON of constraints))`.
pub open spec fn spec_rule_leaf(rule: PolicyRule) -> nat {
    spec_hash_2(rule.tool_id_hash.val(), spec_hash_bytes(json_constraints(rule.constraints@)))
}

/// The leaves of a list of rules.
pub open spec fn spec_rule_leaves(rules: Seq<PolicyRule>) -> Seq<nat> {
    rules.map_values(|r: PolicyRule| spec_rule_leaf(r))
}

/// Appends a JSON string holding the hex of a field element.
fn push_json_fr(out: &mut Vec<u8>, f: &Fr)
    ensures
        final(out)@ == old(out)@ + json_fr(*f),
{
    let h = fr_to_hex(f);
    push_json_string(out, h.as_str());
}

/// Appends the JSON of a constraint.
fn push_constraint_type(out: &mut Vec<u8>, c: &ConstraintType)
    ensures
        final(out)@ == old(out)@ + json_constraint_type(*c),
{
    let ghost start = out@;
    match c {
        ConstraintType::NumericRange { min, max } => {
            push_text(out, "{\"type\":\"NumericRange\",\"config\":{\"min\":");
            push_json_u64(out, *min);
            push_text(out, ",\"max\":");
            push_json_u64(out, *max);
            push_text(out, "}}");
        },
        ConstraintType::ExactMatch { expected_hash } => {
            push_text(out, "{\"type\":\"ExactMatch\",\"config\":{\"expected_hash\":");
            push_json_fr(out, expected_hash);
            push_text(out, "}}");
        },
        ConstraintType::Whitelist { allowed_hashes } => {
            push_text(out, "{\"type\":\"Whitelist\",\"config\":{\"allowed_hashes\":");
            let ghost before = out@;
            let ghost items = allowed_hashes@.map_values(|f: Fr| json_fr(f));
            out.push(91u8);
            let mut i: usize = 0;
            while i < allowed_hashes.len()
                invariant
                    i <= allowed_hashes@.len(),
                    items == allowed_hashes@.map_values(|f: Fr| json_fr(f)),
                    out@ == before + seq![91u8] + json_join(items.take(i as int)),
                decreases allowed_hashes@.len() - i,
            {
                let ghost prev = out@;
                if i > 0 {
                    out.push(44u8);
                }
                push_json_fr(out, &allowed_hashes[i]);
                proof {
                    let t = items.take((i + 1) as int);
                    assert(t.drop_last() =~= items.take(i as int));
                    assert(t.last() == json_fr(allowed_hashes@[i as int]));
                    if i == 0 {
                        assert(items.take(0) =~= Seq::<Seq<u8>>::empty());
                        assert(out@ =~= before + seq![91u8] + json_join(t));
                    } else {
                        assert(out@ =~= before + seq![91u8] + json_join(t));
                    }
                }
                i = i + 1;
            }
            out.push(93u8);
            assert(items.take(i as int) =~= items);
            push_text(out, "}}");
        },
        ConstraintType::MaxSpendLimit { max_amount } => {
            push_text(out, "{\"type\":\"MaxSpendLimit\",\"config\":{\"max_amount\":");
            push_json_u64(out, *max_amount);
            push_text(out, "}}");
        },
        ConstraintType::ReadOnlyOnly => {
            push_text(out, "{\"type\":\"ReadOnlyOnly\"}");
        },
    }
    assert(out@ =~= start + json_constraint_type(*c));
}

/// The compact JSON bytes of a list of parameter constraints, as
/// `serde_json::to_string` renders them.
pub fn constraints_json(constraints: &Vec<ParamConstraint>) -> (r: Vec<u8>)
    ensures
        r@ == json_constraints(constraints@),
{
    let ghost items = constraints@.map_values(|p: ParamConstraint| json_param_constraint(p));
    let mut out: Vec<u8> = Vec::new();
    out.push(91u8);
    let mut i: usize = 0;
    while i < constraints.len()
        invariant
            i <= constraints@.len(),
            items == constraints@.map_values(|p: ParamConstraint| json_param_constraint(p)),
            out@ == seq![91u8] + json_join(items.take(i as int)),
        decreases constraints@.len() - i,
    {
        let ghost prev = out@;
        if i > 0 {
            out.push(44u8);
        }
        let ghost mid = out@;
        let p = &constraints[i];
        push_text(&mut out, "{\"param_name\":");
        push_json_string(&mut out, p.param_name.as_str());
        push_text(&mut out, ",\"constraint\":");
        push_constraint_type(&mut out, &p.constraint);
        push_text(&mut out, "}");
        proof {
            assert(out@ =~= mid + json_param_constraint(*p));
            let t = items.take((i + 1) as int);
            assert(t.drop_last() =~= items.take(i as int));
            if i == 0 {
                assert(items.take(0) =~= Seq::<Seq<u8>>::empty());
            }
            assert(out@ =~= seq![91u8] + json_join(t));
        }
        i = i + 1;
    }
    out.push(93u8);
    assert(items.take(i as int) =~= items);
    out
}

impl PolicyRule {
    /// Creates a rule with no constraints; the tool ID is the Poseidon
    /// digest of the tool name's bytes.
    pub fn new(tool_name: &str, description: &str) -> (r: PolicyRule)
        ensures
            r.tool_name@ == tool_name@,
            r.tool_id_hash.val() == spec_hash_bytes(encode_utf8(tool_name@)),
            r.constraints@ == Seq::<ParamConstraint>::empty(),
            r.description@ == description@,
    {
        let tool_id_hash = poseidon_hash_bytes(tool_name.as_bytes());
        PolicyRule {
            tool_name: String::from_str(tool_name),
            tool_id_hash,
            constraints: Vec::new(),
            description: String::from_str(description),
        }
    }

    /// Adds a parameter constraint to this rule.
    pub fn with_constraint(self, constraint: ParamConstraint) -> (r: PolicyRule)
        ensures
            r.tool_name == self.tool_name,
            r.tool_id_hash == self.tool_id_hash,
            r.constraints@ == self.constraints@.push(constraint),
            r.description == self.description,
    {
        let mut rule = self;
        rule.constraints.push(constraint);
        rule
    }

    /// The leaf committing to this rule:
    /// `H(tool_id_hash, Poseidon(JSON of the constraints))`.
    pub fn compute_leaf(&self) -> (r: Fr)
        ensures
            r.val() == spec_rule_leaf(*self),
    {
        let json = constraints_json(&self.constraints);
        let constraints_hash = poseidon_hash_bytes(json.as_slice());
        poseidon_hash_2(self.tool_id_hash, constraints_hash)
    }
}

/// The position of the first rule for `tool_name`, if any.
pub open spec fn rule_index(rules: Seq<PolicyRule>, tool_name: Seq<char>) -> Option<int> {
    if exists|i: int| 0 <= i < rules.len() && (#[trigger] rules[i]).tool_name@ == tool_name {
        Some(choose|i: int| 0 <= i < rules.len() && (#[trigger] rules[i]).tool_name@ == tool_name && forall|j: int| 0 <= j < i ==> (#[trigger] rules[j]).tool_name@ != tool_name)
    } else {
        None
    }
}

impl PolicyTree {
    /// Creates an empty policy.
    pub fn new(policy_id: &str, version: u32) -> (t: PolicyTree)
        ensures
            t.policy_id@ == policy_id@,
            t.version == version,
            t.rules@ == Seq::<PolicyRule>::empty(),
    {
        PolicyTree { policy_id: String::from_str(policy_id), version, rules: Vec::new() }
    }

    /// Appends an approved rule.
    pub fn add_rule(&mut self, rule: PolicyRule)
        ensures
            final(self).policy_id == old(self).policy_id,
            final(self).version == old(self).version,
            final(self).rules@ == old(self).rules@.push(rule),
    {
        self.rules.push(rule);
    }

    /// The policy root: the root of a Merkle tree of the given depth over
    /// the rule leaves, in order; fails when there are more rules than the
    /// tree holds.
    pub fn compute_policy_root(&self, tree_depth: usize) -> (r: Result<Fr, CoreError>)
        requires
            1 <= tree_depth <= 32,
        ensures
            r is Ok <==> self.rules@.len() <= pow2(tree_depth as nat),
            r matches Ok(root) ==> root.val() == spec_root(spec_rule_leaves(self.rules@), tree_depth as nat),
            r matches Err(e) ==> e is MerkleError,
    {
        let mut tree = MerkleTree::new(tree_depth);
        let mut i: usize = 0;
        while i < self.rules.len()
            invariant
                i <= self.rules@.len(),
                i <= pow2(tree_depth as nat),
                tree.spec_depth() == tree_depth,
                tree.leaf_values() == spec_rule_leaves(self.rules@.take(i as int)),
            decreases self.rules@.len() - i,
        {
            let leaf = self.rules[i].compute_leaf();
            match tree.insert(leaf) {
                Ok(_) => {},
                Err(e) => {
                    return Err(e);
                },
            }
            proof {
                assert(spec_rule_leaves(self.rules@.take((i + 1) as int)) =~= spec_rule_leaves(self.rules@.take(i as int)).push(leaf.val()));
            }
            i = i + 1;
        }
        assert(self.rules@.take(i as int) =~= self.rules@);
        Ok(tree.root())
    }

    /// The sample policy that workspace initialization writes: read-only
    /// database queries, and payments capped at 100000 subunits.
    pub fn default_policy() -> (t: PolicyTree)
        ensures
            t.policy_id@ == "enterprise-default-policy"@,
            t.version == 1,
            t.rules@.len() == 2,
            t.rules@[0].tool_name@ == "postgres_query"@,
            t.rules@[0].tool_id_hash.val() == spec_hash_bytes(encode_utf8("postgres_query"@)),
            t.rules@[0].description@ == "Read-only database queries"@,
            t.rules@[0].constraints@.len() == 1,
            t.rules@[0].constraints@[0].param_name@ == "query_type"@,
            t.rules@[0].constraints@[0].constraint == ConstraintType::ReadOnlyOnly,
            t.rules@[1].tool_name@ == "stripe_payment"@,
            t.rules@[1].tool_id_hash.val() == spec_hash_bytes(encode_utf8("stripe_payment"@)),
            t.rules@[1].description@ == "Stripe payment gateway"@,
            t.rules@[1].constraints@.len() == 1,
            t.rules@[1].constraints@[0].param_name@ == "amount"@,
            t.rules@[1].constraints@[0].constraint == (ConstraintType::MaxSpendLimit { max_amount: 100_000 }),
    {
        let mut policy = PolicyTree::new("enterprise-default-policy", 1);
        let rule_sql = PolicyRule::new("postgres_query", "Read-only database queries").with_constraint(
            ParamConstraint { param_name: String::from_str("query_type"), constraint: ConstraintType::ReadOnlyOnly },
        );
        let rule_stripe = PolicyRule::new("stripe_payment", "Stripe payment gateway").with_constraint(
            ParamConstraint {
                param_name: String::from_str("amount"),
                constraint: ConstraintType::MaxSpendLimit { max_amount: 100_000 },
            },
        );
        policy.add_rule(rule_sql);
        policy.add_rule(rule_stripe);
        policy
    }

    /// The first rule for the named tool, if any.
    pub fn get_rule(&self, tool_name: &str) -> (r: Option<&PolicyRule>)
        ensures
            r is Some <==> rule_index(self.rules@, tool_name@) is Some,
            r matches Some(rule) ==> *rule == self.rules@[rule_index(self.rules@, tool_name@)->0],
    {
        let mut i: usize = 0;
        while i < self.rules.len()
            invariant
                i <= self.rules@.len(),
                forall|j: int| 0 <= j < i ==> (#[trigger] self.rules@[j]).tool_name@ != tool_name@,
            decreases self.rules@.len() - i,
        {
            if str_eq(self.rules[i].tool_name.as_str(), tool_name) {
                proof {
                    let idx = i as int;
                    let rs = self.rules@;
                    assert(rs[idx].tool_name@ == tool_name@);
                    let c = choose|k: int| 0 <= k < rs.len() && (#[trigger] rs[k]).tool_name@ == tool_name@ && forall|j: int| 0 <= j < k ==> (#[trigger] rs[j]).tool_name@ != tool_name@;
                    assert(0 <= idx < rs.len() && rs[idx].tool_name@ == tool_name@ && forall|j: int| 0 <= j < idx ==> (#[trigger] rs[j]).tool_name@ != tool_name@);
                    if c < idx {
                        assert(rs[c].tool_name@ != tool_name@);
                    } else if c > idx {
                        assert(rs[idx].tool_name@ != tool_name@);
                    }
                }
                return Some(&self.rules[i]);
            }
            i = i + 1;
        }
        None
    }
}

/// The closing `}}` of a constraint's JSON is two bytes.
proof fn lemma_close_braces_len()
    ensures
        encode_utf8("}}"@) == seq![125u8, 125u8],
{
    reveal_strlit("}}");
    vstd::utf8::is_ascii_chars_encode_utf8("}}"@);
    assert(encode_utf8("}}"@) =~= seq![125u8, 125u8]);
}

/// The JSON of an empty whitelist ends with an empty array, `[]`, closed
/// by the braces of its `config` and of the constraint.
pub proof fn lemma_empty_whitelist_json_ends(c: ConstraintType)
    requires
        c is Whitelist,
        c->allowed_hashes@.len() == 0,
    ensures
        json_constraint_type(c).len() >= 4,
        json_constraint_type(c).skip(json_constraint_type(c).len() - 4) == seq![91u8, 93u8, 125u8, 125u8],
{
    lemma_close_braces_len();
    let items = c->allowed_hashes@.map_values(|f: Fr| json_fr(f));
    assert(items.len() == 0);
    let j = json_constraint_type(c);
    assert(j.skip(j.len() - 4) =~= seq![91u8, 93u8, 125u8, 125u8]);
}

/// Whitelisting one more hash inserts the hash's JSON string just before
/// the closing `]}}` of the constraint's JSON, preceded by a single comma
/// when the list already held a hash: the allowed hashes form a JSON array
/// whose elements are separated by commas, as `serde_json` renders it.
pub proof fn lemma_whitelist_json_appends(c1: ConstraintType, c2: ConstraintType, h: Fr)
    requires
        c1 is Whitelist,
        c2 is Whitelist,
        c2->allowed_hashes@ == c1->allowed_hashes@.push(h),
    ensures
        json_constraint_type(c1).len() >= 3,
        ({
            let j = json_constraint_type(c1);
            let k = j.len() - 3;
            json_constraint_type(c2) == j.take(k) + (if c1->allowed_hashes@.len() > 0 {
                seq![44u8]
            } else {
                Seq::<u8>::empty()
            }) + json_fr(h) + j.skip(k)
        }),
{
    lemma_close_braces_len();
    let x = c1->allowed_hashes@;
    let y = c2->allowed_hashes@;
    let ix = x.map_values(|f: Fr| json_fr(f));
    let iy = y.map_values(|f: Fr| json_fr(f));
    assert(iy =~= ix.push(json_fr(h)));
    assert(iy.drop_last() =~= ix);
    let pre = encode_utf8("{\"type\":\"Whitelist\",\"config\":{\"allowed_hashes\":"@);
    let close = seq![125u8, 125u8];
    let j1 = json_constraint_type(c1);
    assert(j1 == pre + (seq![91u8] + json_join(ix) + seq![93u8]) + close);
    let k = j1.len() - 3;
    assert(j1.take(k) =~= pre + seq![91u8] + json_join(ix));
    assert(j1.skip(k) =~= seq![93u8] + close);
    if x.len() > 0 {
        assert(json_join(iy) == json_join(ix) + seq![44u8] + json_fr(h));
    } else {
        assert(ix.len() == 0);
        assert(json_join(iy) == json_fr(h));
        assert(json_join(ix) =~= Seq::<u8>::empty());
    }
    assert(json_constraint_type(c2) =~= j1.take(k) + (if x.len() > 0 {
        seq![44u8]
    } else {
        Seq::<u8>::empty()
    }) + json_fr(h) + j1.skip(k));
}

} // verus!
