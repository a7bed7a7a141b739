//! Configuration of the circuit breaker.

use vstd::prelude::*;

verus! {

/// Overrides for one tool.
#[derive(Clone, Debug)]
pub struct ToolOverride {
    /// Tool name (exact match).
    pub tool: String,
    /// Override of the failure threshold for this tool.
    pub failure_threshold: Option<u32>,
    /// Override of the cooldown for this tool.
    pub cooldown_ms: Option<u64>,
}

/// Configuration of the circuit breaker.
#[derive(Clone, Debug)]
pub struct CircuitBreakerConfig {
    /// Number of consecutive failures that trip the circuit.
    pub failure_threshold: u32,
    /// How long the circuit stays open before it turns half-open (ms).
    pub cooldown_ms: u64,
    /// Maximum number of concurrent probes while half-open.
    pub half_open_max_inflight: u32,
    /// Accepted and kept; results are classified by what they hold.
    pub failure_status_codes: Vec<u16>,
    /// Per-tool overrides.
    pub per_tool: Vec<ToolOverride>,
}

/// The mathematical value of a [`ToolOverride`].
pub struct ToolSettings {
    pub tool: Seq<char>,
    pub failure_threshold: Option<nat>,
    pub cooldown_ms: Option<nat>,
}

/// The mathematical value of a [`CircuitBreakerConfig`].
#[verifier::ext_equal]
pub struct Settings {
    pub failure_threshold: nat,
    pub cooldown_ms: nat,
    pub half_open_max_inflight: nat,
    pub failure_status_codes: Seq<u16>,
    pub per_tool: Seq<ToolSettings>,
}

impl View for ToolOverride {
    type V = ToolSettings;

    open spec fn view(&self) -> ToolSettings {
        ToolSettings {
            tool: self.tool@,
            failure_threshold: match self.failure_threshold {
                Some(n) => Some(n as nat),
                None => None,
            },
            cooldown_ms: match self.cooldown_ms {
                Some(ms) => Some(ms as nat),
                None => None,
            },
        }
    }
}

impl View for CircuitBreakerConfig {
    type V = Settings;

    open spec fn view(&self) -> Settings {
        Settings {
            failure_threshold: self.failure_threshold as nat,
            cooldown_ms: self.cooldown_ms as nat,
            half_open_max_inflight: self.half_open_max_inflight as nat,
            failure_status_codes: self.failure_status_codes@,
            per_tool: self.per_tool@.map_values(|o: ToolOverride| o@),
        }
    }
}

/// The first override of `tool`, by its exact name.
pub open spec fn override_of(per_tool: Seq<ToolSettings>, tool: Seq<char>) -> Option<ToolSettings>
    decreases per_tool.len(),
{
    if per_tool.len() == 0 {
        None
    } else if per_tool[0].tool == tool {
        Some(per_tool[0])
    } else {
        override_of(per_tool.skip(1), tool)
    }
}

/// The status codes 500 to 599, in order.
pub open spec fn server_error_codes() -> Seq<u16> {
    Seq::new(100, |i: int| (500 + i) as u16)
}

impl Settings {
    /// The settings of an absent configuration.
    pub open spec fn defaults() -> Settings {
        Settings {
            failure_threshold: 5,
            cooldown_ms: 30_000,
            half_open_max_inflight: 1,
            failure_status_codes: server_error_codes(),
            per_tool: Seq::empty(),
        }
    }

    /// The failure threshold of `tool`.
    pub open spec fn failure_threshold_for(self, tool: Seq<char>) -> nat {
        match override_of(self.per_tool, tool) {
            Some(o) => match o.failure_threshold {
                Some(n) => n,
                None => self.failure_threshold,
            },
            None => self.failure_threshold,
        }
    }

    /// The cooldown of `tool` in milliseconds.
    pub open spec fn cooldown_for(self, tool: Seq<char>) -> nat {
        match override_of(self.per_tool, tool) {
            Some(o) => match o.cooldown_ms {
                Some(ms) => ms,
                None => self.cooldown_ms,
            },
            None => self.cooldown_ms,
        }
    }
}

/// Consecutive failures that trip a circuit unless configured otherwise.
pub fn default_failure_threshold() -> (n: u32)
    ensures
        n == 5,
{
    5
}

/// Cooldown in milliseconds unless configured otherwise.
pub fn default_cooldown_ms() -> (ms: u64)
    ensures
        ms == 30_000,
{
    30_000
}

/// Concurrent probes unless configured otherwise.
pub fn default_half_open_max_inflight() -> (n: u32)
    ensures
        n == 1,
{
    1
}

/// Failure status codes unless configured otherwise.
pub fn default_failure_status_codes() -> (codes: Vec<u16>)
    ensures
        codes@ == server_error_codes(),
{
    let mut codes: Vec<u16> = Vec::new();
    let mut code: u16 = 500;
    while code <= 599
        invariant
            500 <= code <= 600,
            codes@ =~= Seq::new((code - 500) as nat, |i: int| (500 + i) as u16),
        decreases 600 - code,
    {
        codes.push(code);
        code = code + 1;
    }
    codes
}

impl Default for CircuitBreakerConfig {
    fn default() -> (config: Self)
        ensures
            config@ == Settings::defaults(),
    {
        let config = CircuitBreakerConfig {
            failure_threshold: default_failure_threshold(),
            cooldown_ms: default_cooldown_ms(),
            half_open_max_inflight: default_half_open_max_inflight(),
            failure_status_codes: default_failure_status_codes(),
            per_tool: Vec::new(),
        };
        assert(config@ =~= Settings::defaults());
        config
    }
}

/// The fields that a configuration block gives; the others are absent.
#[derive(Clone, Debug)]
pub struct ConfigFields {
    pub failure_threshold: Option<u32>,
    pub cooldown_ms: Option<u64>,
    pub half_open_max_inflight: Option<u32>,
    pub failure_status_codes: Option<Vec<u16>>,
    pub per_tool: Option<Vec<ToolOverride>>,
}

impl ConfigFields {
    /// The settings that the block stands for: what it gives, and the defaults for the rest.
    pub open spec fn settings(self) -> Settings {
        let defaults = Settings::defaults();
        Settings {
            failure_threshold: match self.failure_threshold {
                Some(n) => n as nat,
                None => defaults.failure_threshold,
            },
            cooldown_ms: match self.cooldown_ms {
                Some(ms) => ms as nat,
                None => defaults.cooldown_ms,
            },
            half_open_max_inflight: match self.half_open_max_inflight {
                Some(n) => n as nat,
                None => defaults.half_open_max_inflight,
            },
            failure_status_codes: match self.failure_status_codes {
                Some(codes) => codes@,
                None => defaults.failure_status_codes,
            },
            per_tool: match self.per_tool {
                Some(overrides) => overrides@.map_values(|o: ToolOverride| o@),
                None => defaults.per_tool,
            },
        }
    }

    /// The configuration that the block stands for.
    pub fn into_config(self) -> (config: CircuitBreakerConfig)
        ensures
            config@ == self.settings(),
    {
        let config = CircuitBreakerConfig {
            failure_threshold: match self.failure_threshold {
                Some(n) => n,
                None => default_failure_threshold(),
            },
            cooldown_ms: match self.cooldown_ms {
                Some(ms) => ms,
                None => default_cooldown_ms(),
            },
            half_open_max_inflight: match self.half_open_max_inflight {
                Some(n) => n,
                None => default_half_open_max_inflight(),
            },
            failure_status_codes: match self.failure_status_codes {
                Some(codes) => codes,
                None => default_failure_status_codes(),
            },
            per_tool: match self.per_tool {
                Some(overrides) => overrides,
                None => Vec::new(),
            },
        };
        assert(config@ =~= self.settings());
        config
    }
}

impl CircuitBreakerConfig {
    /// The first override of `tool_name`.
    pub fn override_for(&self, tool_name: &str) -> (found: Option<&ToolOverride>)
        ensures
            match found {
                Some(o) => override_of(self@.per_tool, tool_name@) == Some(o@),
                None => override_of(self@.per_tool, tool_name@) is None,
            },
    {
        let wanted: String = tool_name.to_owned();
        let ghost all = self@.per_tool;
        let mut i: usize = 0;
        assert(all.skip(0) =~= all);
        while i < self.per_tool.len()
            invariant
                i <= self.per_tool@.len(),
                all == self@.per_tool,
                wanted@ == tool_name@,
                override_of(all, tool_name@) == override_of(all.skip(i as int), tool_name@),
            decreases self.per_tool@.len() - i,
        {
            if self.per_tool[i].tool == wanted {
                return Some(&self.per_tool[i]);
            }
            assert(all.skip(i as int).skip(1) =~= all.skip(i + 1));
            i = i + 1;
        }
        None
    }
}

} // verus!
