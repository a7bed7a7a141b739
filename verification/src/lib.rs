//! Per-tool circuit breaker for a tool gateway.
//!
//! A circuit counts the consecutive failures of one tool. Closed, it lets calls through; once
//! the failures reach the threshold it opens and calls are denied; when its cooldown has passed
//! it lets a bounded number of probes through, half-open; and the first result of a probe closes
//! it or opens it again.
//!
//! [`CircuitBreakerPlugin`] is the plugin, [`Breaker`] its mathematical state, and the module
//! [`laws`] holds what is proved over several calls.

pub mod breaker;
pub mod circuit;
mod clock;
pub mod config;
pub mod decision;
pub mod json;
pub mod laws;
pub mod manifest;
pub mod outcomes;
pub mod plugin;
mod store;

pub use breaker::Breaker;
pub use circuit::{Admission, Circuit, CircuitState, CircuitStatus, Transition};
pub use config::{
    default_cooldown_ms, default_failure_status_codes, default_failure_threshold,
    default_half_open_max_inflight, CircuitBreakerConfig, ConfigFields, Settings, ToolOverride,
    ToolSettings,
};
pub use decision::{deny_circuit_open, GateDecision};
pub use json::JsonValue;
pub use manifest::{PluginClass, PluginManifest, PLUGIN_ID, PLUGIN_VERSION};
pub use plugin::{CircuitBreakerPlugin, Evaluation, PluginContext};
