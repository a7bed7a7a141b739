//! What the plugin tells the gateway to do with a call.

use vstd::prelude::*;

use crate::json::JsonValue;

verus! {

/// HTTP status of a denial.
pub const DENIAL_HTTP_STATUS: u16 = 503;

/// JSON-RPC error code of a denial.
pub const DENIAL_CODE: i64 = -32000;

/// What is decided on a call.
#[derive(Debug)]
pub enum GateDecision {
    /// The call goes on.
    Allow,
    /// The call is answered with an error.
    Deny {
        http_status: u16,
        code: i64,
        message: String,
        error_data: Option<JsonValue>,
    },
}

/// The text of the denial for `tool`.
pub open spec fn denial_message(tool: Seq<char>) -> Seq<char> {
    "circuit breaker open for tool '"@ + tool + "' — backend unavailable"@
}

impl GateDecision {
    /// Whether this is the denial that an open circuit gives for `tool`: service unavailable,
    /// with the circuit's state and the tool's name attached.
    pub open spec fn denies(self, tool: Seq<char>) -> bool {
        &&& self matches GateDecision::Deny { http_status, code, message, error_data }
        &&& http_status == 503
        &&& code == -32000
        &&& message@ == denial_message(tool)
        &&& error_data matches Some(JsonValue::Object(members))
        &&& members@.len() == 2
        &&& members@[0].0@ == "circuit_state"@
        &&& members@[0].1.is_text("open"@)
        &&& members@[1].0@ == "tool"@
        &&& members@[1].1.is_text(tool)
    }

    /// The name under which the decision is reported.
    pub open spec fn outcome_label(self) -> Seq<char> {
        match self {
            GateDecision::Allow => "allow"@,
            GateDecision::Deny { .. } => "deny"@,
        }
    }

    /// The decision to let the call go on.
    pub fn allow() -> (decision: GateDecision)
        ensures
            decision is Allow,
    {
        GateDecision::Allow
    }

    /// Whether the call goes on.
    pub fn is_allow(&self) -> (allowed: bool)
        ensures
            allowed == (self is Allow),
    {
        match self {
            GateDecision::Allow => true,
            GateDecision::Deny { .. } => false,
        }
    }

    /// The name under which the decision is reported.
    pub fn outcome(&self) -> (label: &'static str)
        ensures
            label@ == self.outcome_label(),
    {
        match self {
            GateDecision::Allow => "allow",
            GateDecision::Deny { .. } => "deny",
        }
    }
}

/// The denial that an open circuit gives for `tool_name`.
pub fn deny_circuit_open(tool_name: &str) -> (decision: GateDecision)
    ensures
        decision.denies(tool_name@),
{
    let mut message: String = "circuit breaker open for tool '".to_owned();
    message.append(tool_name);
    message.append("' — backend unavailable");
    let mut members: Vec<(String, JsonValue)> = Vec::new();
    members.push(("circuit_state".to_owned(), JsonValue::String("open".to_owned())));
    members.push(("tool".to_owned(), JsonValue::String(tool_name.to_owned())));
    GateDecision::Deny {
        http_status: DENIAL_HTTP_STATUS,
        code: DENIAL_CODE,
        message,
        error_data: Some(JsonValue::Object(members)),
    }
}

} // verus!
