//! What each operation comes to, told by what goes in and what comes out.

use vstd::prelude::*;

use crate::breaker::Breaker;
use crate::circuit::{Circuit, CircuitState, CircuitStatus, Transition};
use crate::clock::clock_read;
use crate::config::{
    override_of, CircuitBreakerConfig, ConfigFields, Settings, ToolOverride, ToolSettings,
};
use crate::decision::{deny_circuit_open, GateDecision};
use crate::json::JsonValue;
use crate::laws::{
    after_events, law_first_override_decides, law_no_override_means_plugin_wide, Event,
};
use crate::plugin::{
    answered_at, is_new_breaker, met_at, requested_at, CircuitBreakerPlugin, Evaluation, PluginContext,
};

verus! {

// Requests.

/// A request touches the circuit of its tool and nothing else. The evaluation tells the time and
/// the circuit as it was, which for a tool not met yet is closed with nothing counted.
pub proof fn law_request_touches_one_circuit(
    before: Breaker,
    after: Breaker,
    tool: Seq<char>,
    e: Evaluation,
    now: u128,
)
    requires
        requested_at(before, after, tool, e, now),
    ensures
        after.settings == before.settings,
        after.manifest == before.manifest,
        after.origin == before.origin,
        after.circuits.dom() == before.circuits.dom().insert(tool),
        forall|other: Seq<char>| #[trigger]
            before.circuits.dom().contains(other) && other != tool ==> after.circuits[other]
                == before.circuits[other],
        e.now == now,
        before.circuits.dom().contains(tool) ==> e.found@ == before.circuits[tool],
        !before.circuits.dom().contains(tool) ==> e.found@ == (Circuit {
            status: CircuitStatus::Closed,
            failure_count: 0,
            last_failure: None,
            last_transition: now as nat,
            half_open_inflight: 0,
        }),
{
}

/// A request for a tool whose circuit is closed passes, at any time, and changes nothing.
pub proof fn law_request_passes_while_closed(
    before: Breaker,
    after: Breaker,
    tool: Seq<char>,
    e: Evaluation,
    now: u128,
)
    requires
        requested_at(before, after, tool, e, now),
        before.circuits.dom().contains(tool),
        before.circuits[tool].status == CircuitStatus::Closed,
    ensures
        e.decision is Allow,
        !e.rejected,
        e.transition is None,
        after == before,
{
    assert(after.circuits =~= before.circuits);
    assert(after =~= before);
}

/// A request for a tool not met yet passes, and its circuit is closed from then on.
pub proof fn law_first_request_passes(
    before: Breaker,
    after: Breaker,
    tool: Seq<char>,
    e: Evaluation,
    now: u128,
)
    requires
        requested_at(before, after, tool, e, now),
        !before.circuits.dom().contains(tool),
    ensures
        e.decision is Allow,
        !e.rejected,
        e.transition is None,
        after.circuits[tool] == (Circuit {
            status: CircuitStatus::Closed,
            failure_count: 0,
            last_failure: None,
            last_transition: now as nat,
            half_open_inflight: 0,
        }),
{
}

/// A request for an open circuit less than the tool's cooldown after it opened is refused and
/// counted as rejected; nothing changes.
pub proof fn law_request_is_rejected_during_cooldown(
    before: Breaker,
    after: Breaker,
    tool: Seq<char>,
    e: Evaluation,
    now: u128,
)
    requires
        requested_at(before, after, tool, e, now),
        before.circuits.dom().contains(tool),
        before.circuits[tool].status == CircuitStatus::Open,
        before.settings.cooldown_for(tool) > 0,
        now < before.circuits[tool].last_transition + before.settings.cooldown_for(tool)
            * 1_000_000,
    ensures
        is_unavailable_for(e.decision, tool),
        e.rejected,
        e.transition is None,
        after == before,
{
    law_denial_is_service_unavailable(e.decision, tool);
    assert(after.circuits =~= before.circuits);
    assert(after =~= before);
}

/// A request for an open circuit whose cooldown has passed is let through as a probe while there
/// is room for one: it turns the circuit half-open at that time, with one more probe in flight.
pub proof fn law_request_probes_after_cooldown(
    before: Breaker,
    after: Breaker,
    tool: Seq<char>,
    e: Evaluation,
    now: u128,
)
    requires
        requested_at(before, after, tool, e, now),
        before.circuits.dom().contains(tool),
        before.circuits[tool].status == CircuitStatus::Open,
        before.settings.cooldown_for(tool) == 0 || now >= before.circuits[tool].last_transition
            + before.settings.cooldown_for(tool) * 1_000_000,
        before.circuits[tool].half_open_inflight < before.settings.half_open_max_inflight,
    ensures
        e.decision is Allow,
        !e.rejected,
        e.transition == Some(
            Transition { from: CircuitStatus::Open, to: CircuitStatus::HalfOpen },
        ),
        after.circuits[tool] == (Circuit {
            status: CircuitStatus::HalfOpen,
            failure_count: before.circuits[tool].failure_count,
            last_failure: before.circuits[tool].last_failure,
            last_transition: now as nat,
            half_open_inflight: before.circuits[tool].half_open_inflight + 1,
        }),
{
}

/// A request for a half-open circuit is let through at any time while fewer probes than allowed
/// are in flight, and is then one of them.
pub proof fn law_request_probes_while_half_open(
    before: Breaker,
    after: Breaker,
    tool: Seq<char>,
    e: Evaluation,
    now: u128,
)
    requires
        requested_at(before, after, tool, e, now),
        before.circuits.dom().contains(tool),
        before.circuits[tool].status == CircuitStatus::HalfOpen,
        before.circuits[tool].half_open_inflight < before.settings.half_open_max_inflight,
    ensures
        e.decision is Allow,
        !e.rejected,
        e.transition is None,
        after.circuits[tool] == (Circuit {
            status: CircuitStatus::HalfOpen,
            failure_count: before.circuits[tool].failure_count,
            last_failure: before.circuits[tool].last_failure,
            last_transition: before.circuits[tool].last_transition,
            half_open_inflight: before.circuits[tool].half_open_inflight + 1,
        }),
{
}

/// A request for a circuit with as many probes in flight as allowed, be it half-open or open with
/// its cooldown passed, is refused without counting as rejected; nothing changes.
pub proof fn law_request_is_refused_when_probes_are_out(
    before: Breaker,
    after: Breaker,
    tool: Seq<char>,
    e: Evaluation,
    now: u128,
)
    requires
        requested_at(before, after, tool, e, now),
        before.circuits.dom().contains(tool),
        before.circuits[tool].status == CircuitStatus::HalfOpen || (before.circuits[tool].status
            == CircuitStatus::Open && (before.settings.cooldown_for(tool) == 0 || now
            >= before.circuits[tool].last_transition + before.settings.cooldown_for(tool)
            * 1_000_000)),
        before.circuits[tool].half_open_inflight >= before.settings.half_open_max_inflight,
    ensures
        is_unavailable_for(e.decision, tool),
        !e.rejected,
        e.transition is None,
        after == before,
{
    law_denial_is_service_unavailable(e.decision, tool);
    assert(after.circuits =~= before.circuits);
    assert(after =~= before);
}

/// A request is one event, and passes exactly when the breaker admits it.
pub proof fn law_request_is_an_event(
    before: Breaker,
    after: Breaker,
    tool: Seq<char>,
    e: Evaluation,
    now: u128,
)
    requires
        requested_at(before, after, tool, e, now),
    ensures
        after == after_events(before, seq![Event::Request { tool, now: now as nat }]),
        e.decision is Allow <==> before.admission(tool, now as nat) is Admitted,
{
    let events = seq![Event::Request { tool, now: now as nat }];
    assert(events.drop_last() =~= Seq::<Event>::empty());
    reveal_with_fuel(after_events, 2);
}

/// A breaker admits a request if and only if the tool is not met yet, its circuit is closed, or
/// there is room for a probe and the circuit is half-open or its cooldown has passed.
pub proof fn law_who_is_admitted(breaker: Breaker, tool: Seq<char>, now: nat)
    ensures
        breaker.admission(tool, now) is Admitted <==> {
            let circuit = breaker.circuits[tool];
            let cooldown_ms = breaker.settings.cooldown_for(tool);
            ||| !breaker.circuits.dom().contains(tool)
            ||| circuit.status == CircuitStatus::Closed
            ||| {
                &&& circuit.half_open_inflight < breaker.settings.half_open_max_inflight
                &&& circuit.status == CircuitStatus::HalfOpen || cooldown_ms == 0 || now
                    >= circuit.last_transition + cooldown_ms * 1_000_000
            }
        },
{
}

/// Looking up a circuit makes it known, closed with nothing counted if the tool was not met yet,
/// and changes nothing else.
pub proof fn law_lookup_makes_known(
    before: Breaker,
    after: Breaker,
    tool: Seq<char>,
    circuit: Circuit,
    now: u128,
)
    requires
        met_at(before, after, tool, circuit, now),
    ensures
        before.circuits.dom().contains(tool) ==> circuit == before.circuits[tool] && after
            == before,
        !before.circuits.dom().contains(tool) ==> circuit == (Circuit {
            status: CircuitStatus::Closed,
            failure_count: 0,
            last_failure: None,
            last_transition: now as nat,
            half_open_inflight: 0,
        }),
        after.circuits == before.circuits.insert(tool, circuit),
        after.settings == before.settings,
        after.manifest == before.manifest,
        after.origin == before.origin,
{
    if before.circuits.dom().contains(tool) {
        assert(after.circuits =~= before.circuits);
        assert(after =~= before);
    }
}

// Results.

/// A result touches the circuit of its tool and nothing else, and never holds up the call.
pub proof fn law_result_touches_one_circuit(
    before: Breaker,
    after: Breaker,
    tool: Seq<char>,
    failed: bool,
    e: Evaluation,
    now: u128,
)
    requires
        answered_at(before, after, tool, failed, e, now),
    ensures
        e.decision is Allow,
        !e.rejected,
        after.settings == before.settings,
        after.manifest == before.manifest,
        after.origin == before.origin,
        after.circuits.dom() == before.circuits.dom().insert(tool),
        forall|other: Seq<char>| #[trigger]
            before.circuits.dom().contains(other) && other != tool ==> after.circuits[other]
                == before.circuits[other],
        e.now == now,
        before.circuits.dom().contains(tool) ==> e.found@ == before.circuits[tool],
        !before.circuits.dom().contains(tool) ==> e.found@ == (Circuit {
            status: CircuitStatus::Closed,
            failure_count: 0,
            last_failure: None,
            last_transition: now as nat,
            half_open_inflight: 0,
        }),
{
}

/// A failure while closed opens the circuit exactly when it brings the failures in a row to the
/// tool's threshold; otherwise it is counted and the circuit stays closed. A tool not met yet has
/// counted none.
pub proof fn law_failure_while_closed_counts_or_trips(
    before: Breaker,
    after: Breaker,
    tool: Seq<char>,
    e: Evaluation,
    now: u128,
)
    requires
        answered_at(before, after, tool, true, e, now),
        before.circuits.dom().contains(tool) ==> before.circuits[tool].status
            == CircuitStatus::Closed,
    ensures
        ({
            let known = before.circuits.dom().contains(tool);
            let failures = if known {
                before.circuits[tool].failure_count + 1
            } else {
                1
            };
            if failures >= before.settings.failure_threshold_for(tool) {
                &&& after.circuits[tool] == (Circuit {
                    status: CircuitStatus::Open,
                    failure_count: 0,
                    last_failure: Some(now as nat),
                    last_transition: now as nat,
                    half_open_inflight: 0,
                })
                &&& e.transition == Some(
                    Transition { from: CircuitStatus::Closed, to: CircuitStatus::Open },
                )
            } else {
                &&& after.circuits[tool] == (Circuit {
                    status: CircuitStatus::Closed,
                    failure_count: failures as nat,
                    last_failure: Some(now as nat),
                    last_transition: if known {
                        before.circuits[tool].last_transition
                    } else {
                        now as nat
                    },
                    half_open_inflight: if known {
                        before.circuits[tool].half_open_inflight
                    } else {
                        0
                    },
                })
                &&& e.transition is None
            }
        }),
{
}

/// A success while closed clears the count and leaves the rest of the circuit as it is.
pub proof fn law_success_while_closed_clears(
    before: Breaker,
    after: Breaker,
    tool: Seq<char>,
    e: Evaluation,
    now: u128,
)
    requires
        answered_at(before, after, tool, false, e, now),
        before.circuits.dom().contains(tool) ==> before.circuits[tool].status
            == CircuitStatus::Closed,
    ensures
        ({
            let known = before.circuits.dom().contains(tool);
            after.circuits[tool] == (Circuit {
                status: CircuitStatus::Closed,
                failure_count: 0,
                last_failure: if known {
                    before.circuits[tool].last_failure
                } else {
                    None
                },
                last_transition: if known {
                    before.circuits[tool].last_transition
                } else {
                    now as nat
                },
                half_open_inflight: if known {
                    before.circuits[tool].half_open_inflight
                } else {
                    0
                },
            })
        }),
        e.transition is None,
{
}

/// The result of a probe decides: a failure opens the circuit again at that time, a success
/// closes it with nothing counted, and either way no probe is in flight any more.
pub proof fn law_probe_result_decides(
    before: Breaker,
    after: Breaker,
    tool: Seq<char>,
    failed: bool,
    e: Evaluation,
    now: u128,
)
    requires
        answered_at(before, after, tool, failed, e, now),
        before.circuits.dom().contains(tool),
        before.circuits[tool].status == CircuitStatus::HalfOpen,
    ensures
        after.circuits[tool] == (Circuit {
            status: if failed {
                CircuitStatus::Open
            } else {
                CircuitStatus::Closed
            },
            failure_count: if failed {
                before.circuits[tool].failure_count
            } else {
                0
            },
            last_failure: before.circuits[tool].last_failure,
            last_transition: now as nat,
            half_open_inflight: 0,
        }),
        e.transition == Some(
            Transition {
                from: CircuitStatus::HalfOpen,
                to: if failed {
                    CircuitStatus::Open
                } else {
                    CircuitStatus::Closed
                },
            },
        ),
{
}

/// A result for an open circuit changes nothing.
pub proof fn law_result_while_open_changes_nothing(
    before: Breaker,
    after: Breaker,
    tool: Seq<char>,
    failed: bool,
    e: Evaluation,
    now: u128,
)
    requires
        answered_at(before, after, tool, failed, e, now),
        before.circuits.dom().contains(tool),
        before.circuits[tool].status == CircuitStatus::Open,
    ensures
        after == before,
        e.transition is None,
{
    assert(after.circuits =~= before.circuits);
    assert(after =~= before);
}

/// A result is one event.
pub proof fn law_result_is_an_event(
    before: Breaker,
    after: Breaker,
    tool: Seq<char>,
    failed: bool,
    e: Evaluation,
    now: u128,
)
    requires
        answered_at(before, after, tool, failed, e, now),
    ensures
        after == after_events(before, seq![Event::Result { tool, failed, now: now as nat }]),
{
    let events = seq![Event::Result { tool, failed, now: now as nat }];
    assert(events.drop_last() =~= Seq::<Event>::empty());
    reveal_with_fuel(after_events, 2);
}

/// The invariant says of each circuit that its count is below the threshold and kept only while
/// closed, and that probes are in flight while half-open only, at least one and at most as many
/// as allowed.
pub proof fn law_what_the_invariant_says(breaker: Breaker, tool: Seq<char>)
    requires
        breaker.inv(),
        breaker.circuits.dom().contains(tool),
    ensures
        ({
            let circuit = breaker.circuits[tool];
            let threshold = breaker.settings.failure_threshold_for(tool);
            &&& circuit.failure_count > 0 ==> circuit.status == CircuitStatus::Closed
                && circuit.failure_count < threshold
            &&& circuit.half_open_inflight > 0 <==> circuit.status == CircuitStatus::HalfOpen
            &&& circuit.half_open_inflight <= breaker.settings.half_open_max_inflight
        }),
{
}

/// A circuit whose status is set keeps everything but the status and the time of it.
pub proof fn law_setting_the_status_keeps_the_rest(
    circuit: Circuit,
    status: CircuitStatus,
    now: nat,
)
    ensures
        circuit.moved_to(status, now) == (Circuit {
            status,
            failure_count: circuit.failure_count,
            last_failure: circuit.last_failure,
            last_transition: now,
            half_open_inflight: circuit.half_open_inflight,
        }),
{
}

/// What is left of a cooldown, in whole milliseconds: none once it has passed, and until then the
/// number that fits between now and its end.
pub proof fn law_remaining_cooldown(circuit: Circuit, now: nat, cooldown_ms: nat)
    ensures
        now >= circuit.last_transition + cooldown_ms * 1_000_000 ==> circuit.remaining_ms(
            now,
            cooldown_ms,
        ) == 0,
        now < circuit.last_transition ==> circuit.remaining_ms(now, cooldown_ms) == cooldown_ms,
        circuit.last_transition <= now < circuit.last_transition + cooldown_ms * 1_000_000 ==> {
            let left = circuit.last_transition + cooldown_ms * 1_000_000 - now;
            let ms = circuit.remaining_ms(now, cooldown_ms);
            ms * 1_000_000 <= left < (ms + 1) * 1_000_000
        },
{
}

// Denials and names.

/// The answer of a service that is unavailable: status 503 and code -32000, with the tool named
/// in the message and in the data, and the circuit's state called open.
pub open spec fn is_unavailable_for(decision: GateDecision, tool: Seq<char>) -> bool {
    &&& decision matches GateDecision::Deny { http_status, code, message, error_data }
    &&& http_status == 503
    &&& code == -32000
    &&& message@ == "circuit breaker open for tool '"@ + tool + "' — backend unavailable"@
    &&& error_data matches Some(data)
    &&& data.member("circuit_state"@) matches Some(JsonValue::String(state))
    &&& state@ == "open"@
    &&& data.member("tool"@) matches Some(JsonValue::String(name))
    &&& name@ == tool
    &&& data matches JsonValue::Object(members)
    &&& members@.len() == 2
}

/// A denial is the answer of a service that is unavailable.
pub proof fn law_denial_is_service_unavailable(decision: GateDecision, tool: Seq<char>)
    requires
        decision.denies(tool),
    ensures
        is_unavailable_for(decision, tool),
{
    if let GateDecision::Deny { error_data: Some(JsonValue::Object(members)), .. } = decision {
        reveal_strlit("circuit_state");
        reveal_strlit("tool");
        assert("circuit_state"@.len() != "tool"@.len());
        law_member_is_first_of_its_name(members@, "circuit_state"@, 0, JsonValue::Object(members));
        law_member_is_first_of_its_name(members@, "tool"@, 1, JsonValue::Object(members));
    }
}

/// No denial is for two tools.
pub proof fn law_denial_is_for_one_tool(decision: GateDecision, tool: Seq<char>, other: Seq<char>)
    requires
        decision.denies(tool),
        decision.denies(other),
    ensures
        tool == other,
{
}

/// Outcomes are reported as allow and deny.
pub proof fn law_outcome_names(decision: GateDecision)
    ensures
        decision is Allow ==> decision.outcome_label() == "allow"@,
        decision is Deny ==> decision.outcome_label() == "deny"@,
{
}

/// Statuses are reported as closed, open and half_open.
pub proof fn law_status_names()
    ensures
        CircuitStatus::Closed.label() == "closed"@,
        CircuitStatus::Open.label() == "open"@,
        CircuitStatus::HalfOpen.label() == "half_open"@,
{
}

// Tool results.

/// An object's member of a name is the first one that has it.
pub proof fn law_member_is_first_of_its_name(
    members: Seq<(String, JsonValue)>,
    name: Seq<char>,
    i: int,
    object: JsonValue,
)
    requires
        object matches JsonValue::Object(m) && m@ == members,
        0 <= i < members.len(),
        members[i].0@ == name,
        forall|j: int| 0 <= j < i ==> (#[trigger] members[j]).0@ != name,
    ensures
        object.member(name) == Some(members[i].1),
{
    lemma_first_member(members, name, i);
}

proof fn lemma_first_member(members: Seq<(String, JsonValue)>, name: Seq<char>, i: int)
    requires
        0 <= i < members.len(),
        members[i].0@ == name,
        forall|j: int| 0 <= j < i ==> (#[trigger] members[j]).0@ != name,
    ensures
        crate::json::first_member(members, name) == Some(members[i].1),
    decreases i,
{
    if i > 0 {
        assert(members[0].0@ != name);
        assert forall|j: int| 0 <= j < i - 1 implies (#[trigger] members.skip(1)[j]).0@ != name by {
            assert(members.skip(1)[j] == members[j + 1]);
        }
        lemma_first_member(members.skip(1), name, i - 1);
    }
}

/// An object without a member of a name has none, and neither has a value that is no object.
pub proof fn law_no_member_of_another_name(value: JsonValue, name: Seq<char>)
    requires
        value matches JsonValue::Object(m) ==> forall|j: int|
            0 <= j < m@.len() ==> (#[trigger] m@[j]).0@ != name,
    ensures
        value.member(name) is None,
{
    if let JsonValue::Object(m) = value {
        lemma_no_member(m@, name);
    }
}

proof fn lemma_no_member(members: Seq<(String, JsonValue)>, name: Seq<char>)
    requires
        forall|j: int| 0 <= j < members.len() ==> (#[trigger] members[j]).0@ != name,
    ensures
        crate::json::first_member(members, name) is None,
    decreases members.len(),
{
    if members.len() > 0 {
        assert forall|j: int| 0 <= j < members.skip(1).len() implies (#[trigger] members.skip(
            1,
        )[j]).0@ != name by {
            assert(members.skip(1)[j] == members[j + 1]);
        }
        lemma_no_member(members.skip(1), name);
    }
}

/// A result flagged as an error is a failure, whatever else it holds.
pub proof fn law_flagged_result_is_a_failure(result: JsonValue)
    requires
        result.member("isError"@) == Some(JsonValue::Bool(true)),
    ensures
        result.reports_failure(),
{
}

/// A result with an item of type error among its content is a failure, whatever else it holds.
pub proof fn law_error_item_makes_a_failure(
    result: JsonValue,
    items: Vec<JsonValue>,
    i: int,
    kind: String,
)
    requires
        result.member("content"@) == Some(JsonValue::Array(items)),
        0 <= i < items@.len(),
        items@[i].member("type"@) == Some(JsonValue::String(kind)),
        kind@ == "error"@,
    ensures
        result.reports_failure(),
{
    assert(crate::json::is_error_item(items@[i]));
    assert(result.member("content"@) matches Some(JsonValue::Array(found)) && found == items);
}

/// A result that is not flagged, and whose content has no item of type error, is no failure. An
/// item of any other type does no harm, nor one without a type that is a text.
pub proof fn law_other_results_are_no_failures(result: JsonValue)
    requires
        result.member("isError"@) != Some(JsonValue::Bool(true)),
        result.member("content"@) matches Some(JsonValue::Array(items)) ==> forall|i: int|
            0 <= i < items@.len() ==> ((#[trigger] items@[i]).member("type"@) matches Some(
                JsonValue::String(kind),
            ) ==> kind@ != "error"@),
    ensures
        !result.reports_failure(),
{
}

// Configuration.

/// A configuration's settings are its fields.
pub proof fn law_settings_are_the_fields(config: CircuitBreakerConfig)
    ensures
        config@.failure_threshold == config.failure_threshold,
        config@.cooldown_ms == config.cooldown_ms,
        config@.half_open_max_inflight == config.half_open_max_inflight,
        config@.failure_status_codes == config.failure_status_codes@,
        config@.per_tool.len() == config.per_tool@.len(),
        forall|i: int|
            0 <= i < config.per_tool@.len() ==> #[trigger] config@.per_tool[i]
                == config.per_tool@[i]@,
{
}

/// An override's settings are its fields.
pub proof fn law_override_is_its_fields(o: ToolOverride)
    ensures
        o@.tool == o.tool@,
        o@.failure_threshold is Some <==> o.failure_threshold is Some,
        o.failure_threshold matches Some(n) ==> o@.failure_threshold == Some(n as nat),
        o@.cooldown_ms is Some <==> o.cooldown_ms is Some,
        o.cooldown_ms matches Some(ms) ==> o@.cooldown_ms == Some(ms as nat),
{
}

/// Each field that a block gives holds as it is given.
pub proof fn law_given_fields_hold(fields: ConfigFields)
    ensures
        fields.failure_threshold matches Some(n) ==> fields.settings().failure_threshold == n,
        fields.cooldown_ms matches Some(ms) ==> fields.settings().cooldown_ms == ms,
        fields.half_open_max_inflight matches Some(n) ==> fields.settings().half_open_max_inflight
            == n,
        fields.failure_status_codes matches Some(codes) ==> fields.settings().failure_status_codes
            == codes@,
        fields.per_tool matches Some(overrides) ==> {
            &&& fields.settings().per_tool.len() == overrides@.len()
            &&& forall|i: int|
                0 <= i < overrides@.len() ==> #[trigger] fields.settings().per_tool[i]
                    == overrides@[i]@
        },
{
}

/// Each field that a block leaves out has its default, whatever the others are: five failures,
/// thirty seconds, one probe, the status codes 500 to 599 in order, and no override.
pub proof fn law_absent_fields_default(fields: ConfigFields)
    ensures
        fields.failure_threshold is None ==> fields.settings().failure_threshold == 5,
        fields.cooldown_ms is None ==> fields.settings().cooldown_ms == 30_000,
        fields.half_open_max_inflight is None ==> fields.settings().half_open_max_inflight == 1,
        fields.failure_status_codes is None ==> {
            &&& fields.settings().failure_status_codes.len() == 100
            &&& forall|i: int|
                0 <= i < 100 ==> #[trigger] fields.settings().failure_status_codes[i] == 500 + i
        },
        fields.per_tool is None ==> fields.settings().per_tool.len() == 0,
{
}

/// The defaults are five failures, thirty seconds, one probe, the status codes 500 to 599 in
/// order, and no override.
pub proof fn law_defaults()
    ensures
        Settings::defaults().failure_threshold == 5,
        Settings::defaults().cooldown_ms == 30_000,
        Settings::defaults().half_open_max_inflight == 1,
        Settings::defaults().failure_status_codes.len() == 100,
        forall|i: int|
            0 <= i < 100 ==> #[trigger] Settings::defaults().failure_status_codes[i] == 500 + i,
        Settings::defaults().per_tool.len() == 0,
{
}

/// The override of a tool is the first of its exact name, and there is none without one.
pub proof fn law_override_is_first_of_its_name(per_tool: Seq<ToolSettings>, tool: Seq<char>)
    ensures
        match override_of(per_tool, tool) {
            Some(o) => exists|i: int|
                0 <= i < per_tool.len() && #[trigger] per_tool[i] == o && o.tool == tool && (
                forall|j: int| 0 <= j < i ==> (#[trigger] per_tool[j]).tool != tool),
            None => forall|i: int|
                0 <= i < per_tool.len() ==> (#[trigger] per_tool[i]).tool != tool,
        },
    decreases per_tool.len(),
{
    if per_tool.len() > 0 {
        let rest = per_tool.skip(1);
        law_override_is_first_of_its_name(rest, tool);
        if per_tool[0].tool == tool {
            assert(per_tool[0] == override_of(per_tool, tool)->0);
        } else {
            match override_of(rest, tool) {
                Some(o) => {
                    let i = choose|i: int|
                        0 <= i < rest.len() && #[trigger] rest[i] == o && o.tool == tool && (
                        forall|j: int| 0 <= j < i ==> (#[trigger] rest[j]).tool != tool);
                    assert(per_tool[i + 1] == o);
                    assert forall|j: int| 0 <= j < i + 1 implies (#[trigger] per_tool[j]).tool
                        != tool by {
                        if j > 0 {
                            assert(rest[j - 1] == per_tool[j]);
                        }
                    }
                },
                None => {
                    assert forall|i: int| 0 <= i < per_tool.len() implies (
                    #[trigger] per_tool[i]).tool != tool by {
                        if i > 0 {
                            assert(rest[i - 1] == per_tool[i]);
                        }
                    }
                },
            }
        }
    }
}

/// A new plugin has the settings it was given, knows no tool, and has the breaker's manifest.
pub proof fn law_new_breaker_is_blank(breaker: Breaker, settings: Settings, tool: Seq<char>)
    requires
        is_new_breaker(breaker, settings),
    ensures
        breaker.settings == settings,
        !breaker.circuits.dom().contains(tool),
        breaker.manifest.id@ == "dev.mcpg.circuit-breaker"@,
        breaker.manifest.version@ == "0.1.0"@,
        breaker.manifest.name@ == "Circuit Breaker"@,
        breaker.manifest.protocol_version@ == "1.0"@,
        breaker.manifest.plugin_class is ToolGate,
        breaker.manifest.license is None,
        breaker.manifest.required_capabilities@.len() == 0,
        breaker.manifest.tags@.len() == 0,
        breaker.manifest.provides@.len() == 0,
        breaker.manifest.provides_schemes@.len() == 0,
        breaker.manifest.module_path_prefix@ == "mcpg_plugin_reliability_circuit_breaker"@,
        breaker.manifest.backend_profile is None,
{
}

// Calls.

/// The configuration made of a block: each field as given, or else its default.
pub open spec fn is_config_of(settings: Settings, fields: ConfigFields) -> bool {
    &&& settings.failure_threshold == match fields.failure_threshold {
        Some(n) => n as nat,
        None => 5,
    }
    &&& settings.cooldown_ms == match fields.cooldown_ms {
        Some(ms) => ms as nat,
        None => 30_000,
    }
    &&& settings.half_open_max_inflight == match fields.half_open_max_inflight {
        Some(n) => n as nat,
        None => 1,
    }
    &&& match fields.failure_status_codes {
        Some(codes) => settings.failure_status_codes == codes@,
        None => settings.failure_status_codes.len() == 100 && forall|i: int|
            0 <= i < 100 ==> #[trigger] settings.failure_status_codes[i] == 500 + i,
    }
    &&& match fields.per_tool {
        Some(overrides) => settings.per_tool.len() == overrides@.len() && forall|i: int|
            0 <= i < overrides@.len() ==> #[trigger] settings.per_tool[i] == overrides@[i]@,
        None => settings.per_tool.len() == 0,
    }
}

/// Making a configuration of a block keeps each field given and takes the default for the rest.
pub proof fn law_into_config(fields: ConfigFields, config: CircuitBreakerConfig)
    requires
        call_ensures(ConfigFields::into_config, (fields,), config),
    ensures
        is_config_of(config@, fields),
        fields.failure_threshold matches Some(n) ==> config.failure_threshold == n,
        fields.failure_threshold is None ==> config.failure_threshold == 5,
        fields.cooldown_ms matches Some(ms) ==> config.cooldown_ms == ms,
        fields.cooldown_ms is None ==> config.cooldown_ms == 30_000,
        fields.half_open_max_inflight matches Some(n) ==> config.half_open_max_inflight == n,
        fields.half_open_max_inflight is None ==> config.half_open_max_inflight == 1,
        fields.failure_status_codes matches Some(codes) ==> config.failure_status_codes@ == codes@,
{
}

/// The default configuration is that of a block which gives nothing.
pub proof fn law_default_config(config: CircuitBreakerConfig, fields: ConfigFields)
    requires
        call_ensures(<CircuitBreakerConfig as Default>::default, (), config),
        fields.failure_threshold is None,
        fields.cooldown_ms is None,
        fields.half_open_max_inflight is None,
        fields.failure_status_codes is None,
        fields.per_tool is None,
    ensures
        is_config_of(config@, fields),
{
}

/// A new plugin has the settings of its configuration and knows no tool.
pub proof fn law_new_plugin(config: CircuitBreakerConfig, plugin: CircuitBreakerPlugin)
    requires
        call_ensures(CircuitBreakerPlugin::new, (config,), plugin),
    ensures
        plugin@.settings == config@,
        forall|tool: Seq<char>| !#[trigger] plugin@.circuits.dom().contains(tool),
{
}

/// A decoded block gives a plugin with the block's settings that knows no tool; a block that
/// could not be decoded gives none, and the message ends with the reason.
pub proof fn law_from_config(
    decoded: Result<ConfigFields, String>,
    plugin: Result<CircuitBreakerPlugin, String>,
)
    requires
        call_ensures(CircuitBreakerPlugin::from_config, (decoded,), plugin),
    ensures
        plugin is Ok <==> decoded is Ok,
        decoded matches Ok(fields) ==> is_config_of(plugin->Ok_0@.settings, fields),
        decoded is Ok ==> forall|tool: Seq<char>|
            !#[trigger] plugin->Ok_0@.circuits.dom().contains(tool),
        decoded matches Err(e) ==> plugin->Err_0@ == "invalid circuit breaker config: "@ + e@,
{
}

/// A text gives a plugin if and only if it is empty or could be decoded: with the default
/// settings if it is empty, else with the block's. What could not be decoded never falls back to
/// the defaults.
pub proof fn law_from_config_json(
    text: &str,
    decoded: Result<ConfigFields, String>,
    plugin: Result<CircuitBreakerPlugin, String>,
    nothing: ConfigFields,
)
    requires
        call_ensures(CircuitBreakerPlugin::from_config_json, (text, decoded), plugin),
        nothing.failure_threshold is None,
        nothing.cooldown_ms is None,
        nothing.half_open_max_inflight is None,
        nothing.failure_status_codes is None,
        nothing.per_tool is None,
    ensures
        plugin is Ok <==> text@.len() == 0 || decoded is Ok,
        text@.len() == 0 ==> is_config_of(plugin->Ok_0@.settings, nothing),
        text@.len() > 0 && decoded is Ok ==> is_config_of(
            plugin->Ok_0@.settings,
            decoded->Ok_0,
        ),
        plugin is Ok ==> forall|tool: Seq<char>|
            !#[trigger] plugin->Ok_0@.circuits.dom().contains(tool),
        plugin is Err ==> plugin->Err_0@ == "malformed circuit breaker config, failing closed: "@
            + decoded->Err_0@,
{
}

/// A tool's threshold and cooldown are those of its first override, as far as that gives them.
pub proof fn law_lookups_of_an_overridden_tool(
    plugin: CircuitBreakerPlugin,
    tool_name: &str,
    i: int,
    threshold: u32,
    cooldown_ms: u64,
)
    requires
        call_ensures(CircuitBreakerPlugin::failure_threshold_for, (&plugin, tool_name), threshold),
        call_ensures(CircuitBreakerPlugin::cooldown_for, (&plugin, tool_name), cooldown_ms),
        0 <= i < plugin@.settings.per_tool.len(),
        plugin@.settings.per_tool[i].tool == tool_name@,
        forall|j: int|
            0 <= j < i ==> (#[trigger] plugin@.settings.per_tool[j]).tool != tool_name@,
    ensures
        threshold == match plugin@.settings.per_tool[i].failure_threshold {
            Some(n) => n,
            None => plugin@.settings.failure_threshold,
        },
        cooldown_ms == match plugin@.settings.per_tool[i].cooldown_ms {
            Some(ms) => ms,
            None => plugin@.settings.cooldown_ms,
        },
{
    law_first_override_decides(plugin@.settings, tool_name@, i);
}

/// A tool without an override has the plugin-wide threshold and cooldown.
pub proof fn law_lookups_of_any_other_tool(
    plugin: CircuitBreakerPlugin,
    tool_name: &str,
    threshold: u32,
    cooldown_ms: u64,
)
    requires
        call_ensures(CircuitBreakerPlugin::failure_threshold_for, (&plugin, tool_name), threshold),
        call_ensures(CircuitBreakerPlugin::cooldown_for, (&plugin, tool_name), cooldown_ms),
        forall|j: int|
            0 <= j < plugin@.settings.per_tool.len() ==> (
            #[trigger] plugin@.settings.per_tool[j]).tool != tool_name@,
    ensures
        threshold == plugin@.settings.failure_threshold,
        cooldown_ms == plugin@.settings.cooldown_ms,
{
    law_no_override_means_plugin_wide(plugin@.settings, tool_name@);
}

/// A result is told to be a failure if it is flagged as an error; if it is not, exactly when an
/// item of its content has the type error.
pub proof fn law_failure_result(plugin: CircuitBreakerPlugin, result: JsonValue, failed: bool)
    requires
        call_ensures(CircuitBreakerPlugin::is_failure_result, (&plugin, &result), failed),
    ensures
        result.member("isError"@) == Some(JsonValue::Bool(true)) ==> failed,
        result.member("isError"@) != Some(JsonValue::Bool(true)) ==> match result.member(
            "content"@,
        ) {
            Some(JsonValue::Array(items)) => failed <==> exists|i: int|
                0 <= i < items@.len() && ((#[trigger] items@[i]).member("type"@) matches Some(
                    JsonValue::String(kind),
                ) && kind@ == "error"@),
            _ => !failed,
        },
{
    if let Some(JsonValue::Array(items)) = result.member("content"@) {
        if exists|i: int|
            0 <= i < items@.len() && ((#[trigger] items@[i]).member("type"@) matches Some(
                JsonValue::String(kind),
            ) && kind@ == "error"@) {
            let i = choose|i: int|
                0 <= i < items@.len() && ((#[trigger] items@[i]).member("type"@) matches Some(
                    JsonValue::String(kind),
                ) && kind@ == "error"@);
            law_error_item_makes_a_failure(
                result,
                items,
                i,
                items@[i].member("type"@)->0->String_0,
            );
        } else if result.member("isError"@) != Some(JsonValue::Bool(true)) {
            law_other_results_are_no_failures(result);
        }
    }
}

/// What an open circuit answers is that the service is unavailable for the tool.
pub proof fn law_deny_circuit_open(tool_name: &str, decision: GateDecision)
    requires
        call_ensures(deny_circuit_open, (tool_name,), decision),
    ensures
        is_unavailable_for(decision, tool_name@),
{
    law_denial_is_service_unavailable(decision, tool_name@);
}

/// Deciding on a request at a given time is a request of that tool at that time.
pub proof fn law_evaluate_pre_inner(ctx: PluginContext, now: u128, e: Evaluation)
    ensures
        forall|p: &mut CircuitBreakerPlugin| #[trigger]
            call_ensures(CircuitBreakerPlugin::evaluate_pre_inner, (p, &ctx, now), e) ==> {
                &&& requested_at((*p)@, final(p)@, ctx.tool_name@, e, now)
                &&& (*p)@.inv() ==> final(p)@.inv()
            },
{
}

/// Deciding on a request is a request of that tool at the time that the clock gave, counted from
/// the plugin's own starting point.
pub proof fn law_evaluate_pre(ctx: PluginContext, e: Evaluation)
    ensures
        forall|p: &mut CircuitBreakerPlugin| #[trigger]
            call_ensures(CircuitBreakerPlugin::evaluate_pre, (p, &ctx), e) ==> {
                &&& clock_read((*p)@.origin, e.now)
                &&& requested_at((*p)@, final(p)@, ctx.tool_name@, e, e.now)
                &&& (*p)@.inv() ==> final(p)@.inv()
            },
{
}

/// Taking note of a result at a given time is a result of that tool at that time, failed exactly
/// if the result reports a failure.
pub proof fn law_evaluate_post_inner(
    ctx: PluginContext,
    result: JsonValue,
    now: u128,
    e: Evaluation,
)
    ensures
        forall|p: &mut CircuitBreakerPlugin| #[trigger]
            call_ensures(CircuitBreakerPlugin::evaluate_post_inner, (p, &ctx, &result, now), e)
                ==> {
                &&& answered_at(
                    (*p)@,
                    final(p)@,
                    ctx.tool_name@,
                    result.reports_failure(),
                    e,
                    now,
                )
                &&& final(p)@.inv()
            },
{
}

/// Taking note of a result is a result of that tool at the time that the clock gave, counted from
/// the plugin's own starting point, failed exactly if the result reports a failure.
pub proof fn law_evaluate_post(ctx: PluginContext, result: JsonValue, e: Evaluation)
    ensures
        forall|p: &mut CircuitBreakerPlugin| #[trigger]
            call_ensures(CircuitBreakerPlugin::evaluate_post, (p, &ctx, &result), e) ==> {
                &&& clock_read((*p)@.origin, e.now)
                &&& answered_at(
                    (*p)@,
                    final(p)@,
                    ctx.tool_name@,
                    result.reports_failure(),
                    e,
                    e.now,
                )
                &&& final(p)@.inv()
            },
{
}

/// Looking up a circuit at a given time makes it known at that time.
pub proof fn law_get_or_create_circuit_at(tool_name: &str, now: u128, circuit: CircuitState)
    ensures
        forall|p: &mut CircuitBreakerPlugin| #[trigger]
            call_ensures(
                CircuitBreakerPlugin::get_or_create_circuit_at,
                (p, tool_name, now),
                circuit,
            ) ==> met_at((*p)@, final(p)@, tool_name@, circuit@, now),
{
}

/// Looking up a circuit makes it known at the time that the clock gave.
pub proof fn law_get_or_create_circuit(tool_name: &str, circuit: CircuitState)
    ensures
        forall|p: &mut CircuitBreakerPlugin| #[trigger]
            call_ensures(CircuitBreakerPlugin::get_or_create_circuit, (p, tool_name), circuit)
                ==> exists|now: u128|
                clock_read((*p)@.origin, now) && #[trigger] met_at(
                    (*p)@,
                    final(p)@,
                    tool_name@,
                    circuit@,
                    now,
                ),
{
}

} // verus!
