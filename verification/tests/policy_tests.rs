use zktrace::error::CoreError;
use zktrace::field::{fr_to_hex, u64_to_fr, Fr};
use zktrace::merkle::MerkleTree;
use zktrace::policy::{constraints_json, ConstraintType, ParamConstraint, PolicyRule, PolicyTree};
use zktrace::poseidon::{poseidon_hash_2, poseidon_hash_bytes};

#[test]
fn test_policy_rule_and_tree_root() {
    let mut tree = PolicyTree::new("enterprise-prod-policy", 1);

    let rule1 = PolicyRule::new("sql_query", "Read-only SQL queries on users db").with_constraint(ParamConstraint {
        param_name: "query_type".to_string(),
        constraint: ConstraintType::ReadOnlyOnly,
    });

    let rule2 = PolicyRule::new("stripe_payment", "Payment tool bounded by $1000").with_constraint(ParamConstraint {
        param_name: "amount".to_string(),
        constraint: ConstraintType::MaxSpendLimit { max_amount: 100_000 },
    });

    tree.add_rule(rule1);
    tree.add_rule(rule2);

    let root = tree.compute_policy_root(4).expect("Root computation must succeed");
    assert_ne!(root, u64_to_fr(0u64));
}

#[test]
fn constraints_json_matches_serde_layout() {
    let cs = vec![
        ParamConstraint { param_name: "q".to_string(), constraint: ConstraintType::ReadOnlyOnly },
        ParamConstraint { param_name: "amount".to_string(), constraint: ConstraintType::MaxSpendLimit { max_amount: 5 } },
        ParamConstraint { param_name: "n".to_string(), constraint: ConstraintType::NumericRange { min: 1, max: 9 } },
        ParamConstraint {
            param_name: "h".to_string(),
            constraint: ConstraintType::ExactMatch { expected_hash: u64_to_fr(1) },
        },
        ParamConstraint {
            param_name: "w\"x".to_string(),
            constraint: ConstraintType::Whitelist { allowed_hashes: vec![u64_to_fr(2)] },
        },
    ];
    let one = fr_to_hex(&u64_to_fr(1));
    let two = fr_to_hex(&u64_to_fr(2));
    let mut expected = String::new();
    expected.push_str("[{\"param_name\":\"q\",\"constraint\":{\"type\":\"ReadOnlyOnly\"}},");
    expected.push_str("{\"param_name\":\"amount\",\"constraint\":{\"type\":\"MaxSpendLimit\",\"config\":{\"max_amount\":5}}},");
    expected.push_str("{\"param_name\":\"n\",\"constraint\":{\"type\":\"NumericRange\",\"config\":{\"min\":1,\"max\":9}}},");
    expected.push_str(&format!("{{\"param_name\":\"h\",\"constraint\":{{\"type\":\"ExactMatch\",\"config\":{{\"expected_hash\":\"{}\"}}}}}},", one));
    expected.push_str(&format!("{{\"param_name\":\"w\\\"x\",\"constraint\":{{\"type\":\"Whitelist\",\"config\":{{\"allowed_hashes\":[\"{}\"]}}}}}}]", two));
    assert_eq!(String::from_utf8(constraints_json(&cs)).unwrap(), expected);
    assert_eq!(constraints_json(&vec![]), b"[]".to_vec());
}

#[test]
fn rule_leaf_is_hash_of_tool_id_and_constraints_digest() {
    let rule = PolicyRule::new("stripe_payment", "d").with_constraint(ParamConstraint {
        param_name: "amount".to_string(),
        constraint: ConstraintType::MaxSpendLimit { max_amount: 100_000 },
    });
    assert_eq!(rule.tool_id_hash, poseidon_hash_bytes(b"stripe_payment"));
    let json = br#"[{"param_name":"amount","constraint":{"type":"MaxSpendLimit","config":{"max_amount":100000}}}]"#;
    let expected = poseidon_hash_2(rule.tool_id_hash, poseidon_hash_bytes(json));
    assert_eq!(rule.compute_leaf(), expected);
}

#[test]
fn policy_root_equals_tree_over_rule_leaves() {
    let mut policy = PolicyTree::new("p", 3);
    let r1 = PolicyRule::new("a", "");
    let r2 = PolicyRule::new("b", "");
    let mut t = MerkleTree::new(3);
    t.insert(r1.compute_leaf()).unwrap();
    t.insert(r2.compute_leaf()).unwrap();
    policy.add_rule(r1);
    policy.add_rule(r2);
    assert_eq!(policy.compute_policy_root(3).unwrap(), t.root());
    let empty = PolicyTree::new("e", 1);
    assert_eq!(empty.compute_policy_root(3).unwrap(), MerkleTree::new(3).root());
}

#[test]
fn policy_root_fails_when_rules_exceed_capacity() {
    let mut policy = PolicyTree::new("p", 1);
    for name in ["a", "b", "c"] {
        policy.add_rule(PolicyRule::new(name, ""));
    }
    assert!(matches!(policy.compute_policy_root(1), Err(CoreError::MerkleError(_))));
    assert!(policy.compute_policy_root(2).is_ok());
}

#[test]
fn get_rule_finds_first_rule_for_tool() {
    let mut policy = PolicyTree::new("p", 1);
    policy.add_rule(PolicyRule::new("tool", "first"));
    policy.add_rule(PolicyRule::new("tool", "second"));
    policy.add_rule(PolicyRule::new("other", "third"));
    assert_eq!(policy.get_rule("tool").unwrap().description, "first");
    assert_eq!(policy.get_rule("other").unwrap().description, "third");
    assert!(policy.get_rule("missing").is_none());
    let _f: Fr = policy.get_rule("tool").unwrap().tool_id_hash;
}
