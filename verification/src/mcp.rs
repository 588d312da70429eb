//! Model Context Protocol JSON-RPC 2.0 messages, tool-call extraction,
//! policy checks on tool calls and the routing decision of the proxy.

use vstd::prelude::*;
use crate::error::McpError;
use crate::json::{JsonModel, JsonValue, str_eq};
use crate::policy::{ConstraintType, ParamConstraint, PolicyRule, PolicyTree, rule_index};
use crate::text::{decimal, decimal_string};

verus! {

/// A JSON-RPC 2.0 request.
#[derive(Clone, Debug)]
pub struct JsonRpcRequest {
    /// Protocol version (`"2.0"`).
    pub jsonrpc: String,
    /// Request id (string, integer or null).
    pub id: JsonValue,
    /// Method name, such as `tools/call`.
    pub method: String,
    /// Optional parameters.
    pub params: Option<JsonValue>,
}

/// A JSON-RPC 2.0 response.
#[derive(Clone, Debug)]
pub struct JsonRpcResponse {
    /// Protocol version (`"2.0"`).
    pub jsonrpc: String,
    /// Id of the request answered.
    pub id: JsonValue,
    /// Result of a successful call.
    pub result: Option<JsonValue>,
    /// Error of a failed call.
    pub error: Option<JsonRpcError>,
}

/// A JSON-RPC 2.0 error object.
#[derive(Clone, Debug)]
pub struct JsonRpcError {
    /// Error code.
    pub code: i64,
    /// Human-readable message.
    pub message: String,
    /// Optional supplementary data.
    pub data: Option<JsonValue>,
}

/// The parameters of an MCP `tools/call` request.
#[derive(Debug)]
pub struct McpToolCallParams {
    /// Name of the tool invoked.
    pub name: String,
    /// Tool arguments (`null` when absent).
    pub arguments: JsonValue,
}

impl Clone for McpToolCallParams {
    fn clone(&self) -> (r: Self)
        ensures
            r.name == self.name,
            r.arguments@ == self.arguments@,
    {
        McpToolCallParams { name: self.name.clone(), arguments: self.arguments.deep_copy() }
    }
}

/// The tool name and arguments that `tools/call` parameters decode to: an
/// object with a string member `name` and an optional member `arguments`,
/// or an array holding the name and optionally the arguments.
#[verifier::opaque]
pub open spec fn tool_call_of(params: JsonModel) -> Option<(Seq<char>, JsonModel)> {
    match params {
        JsonModel::Object(m) => match params.spec_get("name"@) {
            Some(JsonModel::String(name)) => Some(
                (
                    name,
                    match params.spec_get("arguments"@) {
                        Some(a) => a,
                        None => JsonModel::Null,
                    },
                ),
            ),
            _ => None,
        },
        JsonModel::Array(items) => if items.len() == 1 || items.len() == 2 {
            match items[0] {
                JsonModel::String(name) => Some((name, if items.len() == 2 { items[1] } else { JsonModel::Null })),
                _ => None,
            }
        } else {
            None
        },
        _ => None,
    }
}

/// Decodes `tools/call` parameters into a tool call.
fn tool_call_from(params: &JsonValue) -> (r: Option<McpToolCallParams>)
    ensures
        r is Some <==> tool_call_of(params@) is Some,
        r matches Some(tc) ==> tool_call_of(params@) == Some((tc.name@, tc.arguments@)),
{
    reveal(tool_call_of);
    match params {
        JsonValue::Object(members) => {
            assert(*params == JsonValue::Object(*members));
            assert(params@ is Object);
            let name = match params.get("name") {
                Some(v) => match v {
                    JsonValue::String(s) => s.clone(),
                    _ => return None,
                },
                None => return None,
            };
            let arguments = match params.get("arguments") {
                Some(v) => v.deep_copy(),
                None => JsonValue::Null,
            };
            Some(McpToolCallParams { name, arguments })
        },
        JsonValue::Array(items) => {
            assert(*params == JsonValue::Array(*items));
            let ghost s = match params@ {
                JsonModel::Array(s) => s,
                _ => Seq::empty(),
            };
            assert(params@ == JsonModel::Array(s));
            assert(s.len() == items@.len());
            if items.len() == 1 || items.len() == 2 {
                assert(s[0] == items@[0]@);
                assert(items.len() == 2 ==> s[1] == items@[1]@);
                let name = match &items[0] {
                    JsonValue::String(s) => s.clone(),
                    _ => return None,
                };
                let arguments = if items.len() == 2 {
                    items[1].deep_copy()
                } else {
                    JsonValue::Null
                };
                Some(McpToolCallParams { name, arguments })
            } else {
                None
            }
        },
        _ => None,
    }
}

impl JsonRpcRequest {
    /// The tool call carried by a `tools/call` request with decodable
    /// parameters; nothing for any other request.
    pub fn extract_tool_call(&self) -> (r: Option<McpToolCallParams>)
        ensures
            r is Some <==> (self.method@ == "tools/call"@ && (self.params matches Some(p) && tool_call_of(p@) is Some)),
            r matches Some(tc) ==> (self.params matches Some(p) && tool_call_of(p@) == Some((tc.name@, tc.arguments@))),
    {
        if !str_eq(self.method.as_str(), "tools/call") {
            return None;
        }
        match &self.params {
            Some(p) => tool_call_from(p),
            None => None,
        }
    }
}

impl JsonRpcResponse {
    /// A successful response to the request with the given id.
    pub fn success(id: JsonValue, result: JsonValue) -> (r: JsonRpcResponse)
        ensures
            r.jsonrpc@ == "2.0"@,
            r.id == id,
            r.result == Some(result),
            r.error is None,
    {
        JsonRpcResponse { jsonrpc: String::from_str("2.0"), id, result: Some(result), error: None }
    }

    /// An error response to the request with the given id.
    pub fn error(id: JsonValue, code: i64, message: &str) -> (r: JsonRpcResponse)
        ensures
            r.jsonrpc@ == "2.0"@,
            r.id == id,
            r.result is None,
            r.error matches Some(e) && e.code == code && e.message@ == message@ && e.data is None,
    {
        JsonRpcResponse {
            jsonrpc: String::from_str("2.0"),
            id,
            result: None,
            error: Some(JsonRpcError { code, message: String::from_str(message), data: None }),
        }
    }
}

/// The non-negative integer argument a constraint names, if any.
pub open spec fn named_u64(c: ParamConstraint, args: JsonModel) -> Option<u64> {
    match args.spec_get(c.param_name@) {
        Some(v) => v.spec_as_u64(),
        None => None,
    }
}

/// A tool call's arguments violate a constraint: the named argument is a
/// non-negative integer above a spend limit or outside a numeric range.
#[verifier::opaque]
pub open spec fn violates(c: ParamConstraint, args: JsonModel) -> bool {
    match named_u64(c, args) {
        Some(n) => match c.constraint {
            ConstraintType::MaxSpendLimit { max_amount } => n > max_amount,
            ConstraintType::NumericRange { min, max } => n < min || n > max,
            _ => false,
        },
        None => false,
    }
}

/// The explanation of a violated constraint.
pub open spec fn violation_text(c: ParamConstraint, args: JsonModel) -> Seq<char> {
    let n = named_u64(c, args)->0;
    match c.constraint {
        ConstraintType::MaxSpendLimit { max_amount } => "Parameter '"@ + c.param_name@ + "' value "@ + decimal(
            n as nat,
        ) + " exceeds maximum spend limit of "@ + decimal(max_amount as nat),
        ConstraintType::NumericRange { min, max } => "Parameter '"@ + c.param_name@ + "' value "@ + decimal(
            n as nat,
        ) + " outside permitted range ["@ + decimal(min as nat) + ", "@ + decimal(max as nat) + "]"@,
        _ => Seq::empty(),
    }
}

/// The position of the first violated constraint, if any.
pub open spec fn first_violation(cs: Seq<ParamConstraint>, args: JsonModel) -> Option<int> {
    if exists|i: int| 0 <= i < cs.len() && violates(#[trigger] cs[i], args) {
        Some(choose|i: int| 0 <= i < cs.len() && violates(#[trigger] cs[i], args) && forall|j: int| 0 <= j < i ==> !violates(#[trigger] cs[j], args))
    } else {
        None
    }
}

/// Why a tool call is refused under a policy, or nothing when it is
/// permitted: the tool must have a rule, and the first rule for it must
/// have no violated constraint.
#[verifier::opaque]
pub open spec fn refusal(policy: PolicyTree, name: Seq<char>, args: JsonModel) -> Option<Seq<char>> {
    match rule_index(policy.rules@, name) {
        None => Some("Tool '"@ + name + "' is not permitted under active policy '"@ + policy.policy_id@ + "'"@),
        Some(i) => {
            let cs = policy.rules@[i].constraints@;
            match first_violation(cs, args) {
                Some(k) => Some(violation_text(cs[k], args)),
                None => None,
            }
        },
    }
}

/// The explanation for a violated constraint; nothing for a satisfied one.
fn check_constraint(c: &ParamConstraint, args: &JsonValue) -> (r: Option<String>)
    ensures
        r is Some <==> violates(*c, args@),
        r matches Some(m) ==> m@ == violation_text(*c, args@),
{
    reveal(violates);
    let n = match args.get(c.param_name.as_str()) {
        Some(v) => match v.as_u64() {
            Some(n) => n,
            None => return None,
        },
        None => return None,
    };
    match &c.constraint {
        ConstraintType::MaxSpendLimit { max_amount } => {
            if n > *max_amount {
                let mut msg = String::from_str("Parameter '");
                msg.append(c.param_name.as_str());
                msg.append("' value ");
                msg.append(decimal_string(n).as_str());
                msg.append(" exceeds maximum spend limit of ");
                msg.append(decimal_string(*max_amount).as_str());
                Some(msg)
            } else {
                None
            }
        },
        ConstraintType::NumericRange { min, max } => {
            if n < *min || n > *max {
                let mut msg = String::from_str("Parameter '");
                msg.append(c.param_name.as_str());
                msg.append("' value ");
                msg.append(decimal_string(n).as_str());
                msg.append(" outside permitted range [");
                msg.append(decimal_string(*min).as_str());
                msg.append(", ");
                msg.append(decimal_string(*max).as_str());
                msg.append("]");
                Some(msg)
            } else {
                None
            }
        },
        _ => None,
    }
}

/// Checks a tool call against a policy before execution: the tool must
/// have a rule, and no bounded argument may exceed its spend limit or leave
/// its numeric range. A refusal is a policy-violation error.
pub fn validate_policy(policy: &PolicyTree, tool_call: &McpToolCallParams) -> (r: Result<(), McpError>)
    ensures
        r is Ok <==> refusal(*policy, tool_call.name@, tool_call.arguments@) is None,
        r matches Err(e) ==> (e matches McpError::PolicyViolation(m) && refusal(
            *policy,
            tool_call.name@,
            tool_call.arguments@,
        ) == Some(m@)),
{
    let rule: &PolicyRule = match policy.get_rule(tool_call.name.as_str()) {
        Some(rule) => rule,
        None => {
            proof {
                reveal(refusal);
            }
            let mut msg = String::from_str("Tool '");
            msg.append(tool_call.name.as_str());
            msg.append("' is not permitted under active policy '");
            msg.append(policy.policy_id.as_str());
            msg.append("'");
            return Err(McpError::PolicyViolation(msg));
        },
    };
    let ghost cs = rule.constraints@;
    let ghost args = tool_call.arguments@;
    let mut k: usize = 0;
    let mut violation: Option<String> = None;
    while k < rule.constraints.len()
        invariant_except_break
            violation is None,
        invariant
            k <= cs.len(),
            cs == rule.constraints@,
            args == tool_call.arguments@,
            forall|j: int| 0 <= j < k ==> !violates(#[trigger] cs[j], args),
        ensures
            violation is None ==> first_violation(cs, args) is None,
            violation matches Some(m) ==> k < cs.len() && first_violation(cs, args) == Some(k as int)
                && m@ == violation_text(cs[k as int], args),
        decreases cs.len() - k,
    {
        match check_constraint(&rule.constraints[k], &tool_call.arguments) {
            Some(msg) => {
                proof {
                    lemma_first_violation_at(cs, args, k as int);
                }
                violation = Some(msg);
                break;
            },
            None => {},
        }
        k = k + 1;
    }
    proof {
        reveal(refusal);
    }
    match violation {
        Some(msg) => Err(McpError::PolicyViolation(msg)),
        None => Ok(()),
    }
}

/// The first violated constraint is at `idx` when it is violated and no
/// earlier one is.
proof fn lemma_first_violation_at(cs: Seq<ParamConstraint>, args: JsonModel, idx: int)
    requires
        0 <= idx < cs.len(),
        violates(cs[idx], args),
        forall|j: int| 0 <= j < idx ==> !violates(#[trigger] cs[j], args),
    ensures
        first_violation(cs, args) == Some(idx),
{
    let c = choose|i: int| 0 <= i < cs.len() && violates(#[trigger] cs[i], args) && forall|j: int| 0 <= j < i ==> !violates(#[trigger] cs[j], args);
    if c < idx {
        assert(!violates(cs[c], args));
    } else if c > idx {
        assert(violates(cs[idx], args));
    }
}

/// The routing decision of the proxy for one client request.
#[derive(Debug)]
pub enum ProxyAction {
    /// The request is permitted and forwarded upstream.
    Forward {
        /// The request to send upstream.
        request: JsonRpcRequest,
        /// The tool call, for a `tools/call` request.
        tool_call: Option<McpToolCallParams>,
    },
    /// The request violates the policy and is answered directly.
    Reject {
        /// The error response returned to the agent.
        response: JsonRpcResponse,
    },
}

/// Routes a client request: a tool call that the policy refuses is
/// answered with a `-32000` error response whose message gives the reason;
/// any other request is forwarded, with its tool call when it carries one.
pub fn route_client_request(policy: &PolicyTree, req: JsonRpcRequest) -> (r: ProxyAction)
    ensures
        ({
            let call = if req.method@ == "tools/call"@ && req.params is Some {
                tool_call_of(req.params->0@)
            } else {
                None
            };
            match call {
                Some((name, args)) => match refusal(*policy, name, args) {
                    Some(why) => r matches ProxyAction::Reject { response } && {
                        &&& response.jsonrpc@ == "2.0"@
                        &&& response.id == req.id
                        &&& response.result is None
                        &&& response.error matches Some(e) && e.code == -32000 && e.data is None
                            && e.message@ == "ZKTrace Policy Violation: "@ + "Policy violation: "@ + why
                    },
                    None => r matches ProxyAction::Forward { request, tool_call } && request == req
                        && (tool_call matches Some(tc) && tc.name@ == name && tc.arguments@ == args),
                },
                None => r matches ProxyAction::Forward { request, tool_call } && request == req && tool_call is None,
            }
        }),
{
    match req.extract_tool_call() {
        Some(tool_call) => match validate_policy(policy, &tool_call) {
            Err(e) => {
                let mut msg = String::from_str("ZKTrace Policy Violation: ");
                msg.append(e.message().as_str());
                ProxyAction::Reject { response: JsonRpcResponse::error(req.id, -32000, msg.as_str()) }
            },
            Ok(()) => ProxyAction::Forward { request: req, tool_call: Some(tool_call) },
        },
        None => ProxyAction::Forward { request: req, tool_call: None },
    }
}

} // verus!
