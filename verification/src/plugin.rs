//! The circuit breaker as a gate plugin: one circuit for each tool, asked before a call is
//! dispatched and told its result afterwards.

use vstd::prelude::*;

use std::time::Instant;

use dashmap::DashMap;

use crate::breaker::Breaker;
use crate::circuit::{transition_between, Admission, Circuit, CircuitState, Transition};
use crate::clock::{clock_read, read_clock};
use crate::config::{CircuitBreakerConfig, ConfigFields, Settings};
use crate::decision::{deny_circuit_open, GateDecision};
use crate::json::{is_error_item, JsonValue};
use crate::manifest::PluginManifest;
use crate::store::{
    circuits_in, new_table, table_contains, table_get, table_insert, table_or_insert,
};

verus! {

/// What the plugin reads of the call that it is asked about.
#[derive(Clone, Debug)]
pub struct PluginContext {
    /// The tool that is called.
    pub tool_name: String,
}

/// The outcome of one evaluation: the decision, and what is due to be reported of it.
#[derive(Debug)]
pub struct Evaluation {
    pub decision: GateDecision,
    /// The change of the circuit's status, when there was one.
    pub transition: Option<Transition>,
    /// Whether the call was turned away by an open circuit that is still cooling down.
    pub rejected: bool,
    /// The circuit as the evaluation found it.
    pub found: CircuitState,
    /// The time of the evaluation.
    pub now: u128,
}

impl Evaluation {
    /// Whether this is the outcome of a request for `tool` at time `now`.
    pub open spec fn answers_request(self, before: Breaker, tool: Seq<char>, now: nat) -> bool {
        &&& match before.admission(tool, now) {
            Admission::Admitted => self.decision is Allow,
            _ => self.decision.denies(tool),
        }
        &&& self.rejected == (before.admission(tool, now) is CoolingDown)
        &&& self.found@ == before.circuit(tool, now)
        &&& self.now == now
        &&& self.transition == transition_between(
            before.circuit(tool, now).status,
            before.after_request(tool, now).circuits[tool].status,
        )
    }

    /// Whether this is the outcome of a result of `tool` at time `now`.
    pub open spec fn answers_result(
        self,
        before: Breaker,
        tool: Seq<char>,
        failed: bool,
        now: nat,
    ) -> bool {
        &&& self.decision is Allow
        &&& !self.rejected
        &&& self.found@ == before.circuit(tool, now)
        &&& self.now == now
        &&& self.transition == transition_between(
            before.circuit(tool, now).status,
            before.after_result(tool, failed, now).circuits[tool].status,
        )
    }
}

/// Circuit breaker gate plugin: tracks failures per tool and short-circuits when tripped.
pub struct CircuitBreakerPlugin {
    manifest: PluginManifest,
    config: CircuitBreakerConfig,
    circuits: DashMap<String, CircuitState>,
    /// The time that circuits are timed from.
    origin: Instant,
}

impl View for CircuitBreakerPlugin {
    type V = Breaker;

    closed spec fn view(&self) -> Breaker {
        Breaker {
            manifest: self.manifest,
            settings: self.config@,
            circuits: circuits_in(self.circuits).map_values(|c: CircuitState| c@),
            origin: self.origin,
        }
    }
}

/// Whether this is the state of a newly made plugin with the given settings.
pub open spec fn is_new_breaker(breaker: Breaker, settings: Settings) -> bool {
    &&& breaker.manifest.describes_circuit_breaker()
    &&& breaker.settings == settings
    &&& breaker.circuits == Map::<Seq<char>, Circuit>::empty()
}

impl CircuitBreakerPlugin {
    /// A plugin that has met no tool yet.
    pub fn new(config: CircuitBreakerConfig) -> (plugin: Self)
        ensures
            is_new_breaker(plugin@, config@),
            plugin@.inv(),
    {
        let plugin = CircuitBreakerPlugin {
            manifest: PluginManifest::circuit_breaker(),
            config,
            circuits: new_table(),
            origin: Instant::now(),
        };
        assert(plugin@.circuits =~= Map::<Seq<char>, Circuit>::empty());
        plugin
    }

    /// A plugin for a configuration block, given what decoding it came to.
    pub fn from_config(decoded: Result<ConfigFields, String>) -> (plugin: Result<Self, String>)
        ensures
            match decoded {
                Ok(fields) => plugin matches Ok(p) && is_new_breaker(p@, fields.settings())
                    && p@.inv(),
                Err(e) => plugin matches Err(message) && message@
                    == "invalid circuit breaker config: "@ + e@,
            },
    {
        match decoded {
            Ok(fields) => Ok(Self::new(fields.into_config())),
            Err(e) => {
                let mut message: String = "invalid circuit breaker config: ".to_owned();
                message.append(e.as_str());
                Err(message)
            },
        }
    }

    /// A plugin for the text of a configuration block, given what decoding it came to. An absent
    /// block, which is an empty text, means the defaults. A block that is there but malformed is
    /// refused: it never degrades to the defaults.
    pub fn from_config_json(config_json: &str, decoded: Result<ConfigFields, String>) -> (plugin:
        Result<Self, String>)
        ensures
            if config_json@.len() == 0 {
                plugin matches Ok(p) && is_new_breaker(p@, Settings::defaults()) && p@.inv()
            } else {
                match decoded {
                    Ok(fields) => plugin matches Ok(p) && is_new_breaker(p@, fields.settings())
                        && p@.inv(),
                    Err(e) => plugin matches Err(message) && message@
                        == "malformed circuit breaker config, failing closed: "@ + e@,
                }
            },
    {
        if config_json.is_empty() {
            return Ok(Self::new(CircuitBreakerConfig::default()));
        }
        match decoded {
            Ok(fields) => Ok(Self::new(fields.into_config())),
            Err(e) => {
                let mut message: String =
                    "malformed circuit breaker config, failing closed: ".to_owned();
                message.append(e.as_str());
                Err(message)
            },
        }
    }

    /// What the plugin tells of itself.
    pub fn manifest(&self) -> (manifest: &PluginManifest)
        ensures
            *manifest == self@.manifest,
    {
        &self.manifest
    }

    /// The configuration in force.
    pub fn config(&self) -> (config: &CircuitBreakerConfig)
        ensures
            config@ == self@.settings,
    {
        &self.config
    }

    /// The time, counted from when the plugin was made, as the clock gives it.
    fn now(&self) -> (now: u128)
        ensures
            clock_read(self@.origin, now),
    {
        read_clock(&self.origin)
    }

    /// The circuit of `tool_name`, made if the tool is met for the first time.
    pub fn get_or_create_circuit(&mut self, tool_name: &str) -> (circuit: CircuitState)
        ensures
            exists|now: u128|
                clock_read(old(self)@.origin, now) && #[trigger] met_at(
                    old(self)@,
                    final(self)@,
                    tool_name@,
                    circuit@,
                    now,
                ),
            old(self)@.inv() ==> final(self)@.inv(),
    {
        let now: u128 = self.now();
        let circuit = self.get_or_create_circuit_at(tool_name, now);
        assert(met_at(old(self)@, self@, tool_name@, circuit@, now));
        circuit
    }

    /// The circuit of `tool_name`, made if the tool is met for the first time at time `now`.
    pub fn get_or_create_circuit_at(&mut self, tool_name: &str, now: u128) -> (circuit:
        CircuitState)
        ensures
            met_at(old(self)@, final(self)@, tool_name@, circuit@, now),
            old(self)@.inv() ==> final(self)@.inv(),
    {
        if !table_contains(&self.circuits, tool_name) {
            let fresh = CircuitState::new(now);
            table_or_insert(&mut self.circuits, tool_name.to_owned(), fresh);
        }
        assert(self@ =~= old(self)@.met(tool_name@, now as nat));
        table_get(&self.circuits, tool_name).unwrap()
    }

    /// Sets the circuit of `tool_name`.
    fn set_circuit(&mut self, tool_name: &str, circuit: CircuitState)
        ensures
            final(self)@ == old(self)@.with_circuit(tool_name@, circuit@),
    {
        table_insert(&mut self.circuits, tool_name.to_owned(), circuit);
        assert(self@ =~= old(self)@.with_circuit(tool_name@, circuit@));
    }

    /// The failure threshold of `tool_name`.
    pub fn failure_threshold_for(&self, tool_name: &str) -> (threshold: u32)
        ensures
            threshold == self@.settings.failure_threshold_for(tool_name@),
    {
        match self.config.override_for(tool_name) {
            Some(o) => match o.failure_threshold {
                Some(n) => n,
                None => self.config.failure_threshold,
            },
            None => self.config.failure_threshold,
        }
    }

    /// The cooldown of `tool_name` in milliseconds.
    pub fn cooldown_for(&self, tool_name: &str) -> (cooldown_ms: u64)
        ensures
            cooldown_ms == self@.settings.cooldown_for(tool_name@),
    {
        match self.config.override_for(tool_name) {
            Some(o) => match o.cooldown_ms {
                Some(ms) => ms,
                None => self.config.cooldown_ms,
            },
            None => self.config.cooldown_ms,
        }
    }

    /// Whether a tool result reports a failure.
    pub fn is_failure_result(&self, result: &JsonValue) -> (failed: bool)
        ensures
            failed == result.reports_failure(),
    {
        if let Some(flag) = result.get("isError") {
            if let Some(true) = flag.as_bool() {
                return true;
            }
        }
        if let Some(content) = result.get("content") {
            if let Some(items) = content.as_array() {
                let error: String = "error".to_owned();
                let mut i: usize = 0;
                while i < items.len()
                    invariant
                        i <= items@.len(),
                        error@ == "error"@,
                        result.member("content"@) == Some(JsonValue::Array(*items)),
                        forall|j: int| 0 <= j < i ==> !is_error_item(#[trigger] items@[j]),
                    decreases items@.len() - i,
                {
                    if let Some(kind) = items[i].get("type") {
                        if let Some(text) = kind.as_str() {
                            if *text == error {
                                assert(is_error_item(items@[i as int]));
                                assert(result.member("content"@) matches Some(
                                    JsonValue::Array(found),
                                ) && found == *items);
                                return true;
                            }
                        }
                    }
                    i = i + 1;
                }
            }
        }
        false
    }

    /// Decides on a request. The time is read from the clock, and the outcome tells it.
    pub fn evaluate_pre(&mut self, ctx: &PluginContext) -> (evaluation: Evaluation)
        ensures
            clock_read(old(self)@.origin, evaluation.now),
            requested_at(old(self)@, final(self)@, ctx.tool_name@, evaluation, evaluation.now),
            old(self)@.inv() ==> final(self)@.inv(),
    {
        let now: u128 = self.now();
        self.evaluate_pre_inner(ctx, now)
    }

    /// Decides on a request at time `now`.
    pub fn evaluate_pre_inner(&mut self, ctx: &PluginContext, now: u128) -> (evaluation: Evaluation)
        ensures
            requested_at(old(self)@, final(self)@, ctx.tool_name@, evaluation, now),
            old(self)@.inv() ==> final(self)@.inv(),
    {
        let tool_name: &str = ctx.tool_name.as_str();
        let found = self.get_or_create_circuit_at(tool_name, now);
        let mut circuit = found;
        let cooldown_ms: u64 = self.cooldown_for(tool_name);
        let (admission, transition) = circuit.request(
            now,
            cooldown_ms,
            self.config.half_open_max_inflight,
        );
        self.set_circuit(tool_name, circuit);
        assert(self@ =~= old(self)@.after_request(tool_name@, now as nat));
        match admission {
            Admission::Admitted => Evaluation {
                decision: GateDecision::allow(),
                transition,
                rejected: false,
                found,
                now,
            },
            Admission::CoolingDown => Evaluation {
                decision: deny_circuit_open(tool_name),
                transition,
                rejected: true,
                found,
                now,
            },
            Admission::Saturated => Evaluation {
                decision: deny_circuit_open(tool_name),
                transition,
                rejected: false,
                found,
                now,
            },
        }
    }

    /// Takes note of a result. The call itself is always let through. The time is read from the
    /// clock, and the outcome tells it.
    pub fn evaluate_post(&mut self, ctx: &PluginContext, result: &JsonValue) -> (evaluation:
        Evaluation)
        requires
            old(self)@.inv(),
        ensures
            clock_read(old(self)@.origin, evaluation.now),
            answered_at(
                old(self)@,
                final(self)@,
                ctx.tool_name@,
                result.reports_failure(),
                evaluation,
                evaluation.now,
            ),
            final(self)@.inv(),
    {
        let now: u128 = self.now();
        self.evaluate_post_inner(ctx, result, now)
    }

    /// Takes note of a result at time `now`.
    pub fn evaluate_post_inner(
        &mut self,
        ctx: &PluginContext,
        result: &JsonValue,
        now: u128,
    ) -> (evaluation: Evaluation)
        requires
            old(self)@.inv(),
        ensures
            answered_at(
                old(self)@,
                final(self)@,
                ctx.tool_name@,
                result.reports_failure(),
                evaluation,
                now,
            ),
            final(self)@.inv(),
    {
        let tool_name: &str = ctx.tool_name.as_str();
        let found = self.get_or_create_circuit_at(tool_name, now);
        let mut circuit = found;
        assert(self@.circuits.dom().contains(tool_name@));
        let failed: bool = self.is_failure_result(result);
        let threshold: u32 = self.failure_threshold_for(tool_name);
        let transition = circuit.record(failed, now, threshold);
        self.set_circuit(tool_name, circuit);
        assert(self@ =~= old(self)@.after_result(tool_name@, failed, now as nat));
        Evaluation { decision: GateDecision::allow(), transition, rejected: false, found, now }
    }
}

/// Whether `before` became `after` when the circuit of `tool` was looked up at time `now` and
/// found to be `circuit`.
pub open spec fn met_at(
    before: Breaker,
    after: Breaker,
    tool: Seq<char>,
    circuit: Circuit,
    now: u128,
) -> bool {
    &&& after == before.met(tool, now as nat)
    &&& circuit == before.circuit(tool, now as nat)
}

/// Whether `before` became `after`, with the given outcome, by a request for `tool` at time
/// `now`.
pub open spec fn requested_at(
    before: Breaker,
    after: Breaker,
    tool: Seq<char>,
    evaluation: Evaluation,
    now: u128,
) -> bool {
    &&& after == before.after_request(tool, now as nat)
    &&& evaluation.answers_request(before, tool, now as nat)
}

/// Whether `before` became `after`, with the given outcome, by a result of `tool` at time `now`.
pub open spec fn answered_at(
    before: Breaker,
    after: Breaker,
    tool: Seq<char>,
    failed: bool,
    evaluation: Evaluation,
    now: u128,
) -> bool {
    &&& after == before.after_result(tool, failed, now as nat)
    &&& evaluation.answers_result(before, tool, failed, now as nat)
}

} // verus!
