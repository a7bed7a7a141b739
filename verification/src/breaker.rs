//! The mathematical state of the circuit breaker as a whole.

use vstd::prelude::*;

use std::time::Instant;

use crate::circuit::{Admission, Circuit};
use crate::config::Settings;
use crate::manifest::PluginManifest;

verus! {

/// The state of a circuit breaker: a circuit for each tool that it has met.
#[verifier::ext_equal]
pub struct Breaker {
    pub manifest: PluginManifest,
    pub settings: Settings,
    pub circuits: Map<Seq<char>, Circuit>,
    /// The instant that all times are counted from.
    pub origin: Instant,
}

impl Breaker {
    /// The circuit of `tool`, which is fresh when the tool is met for the first time.
    pub open spec fn circuit(self, tool: Seq<char>, now: nat) -> Circuit {
        if self.circuits.dom().contains(tool) {
            self.circuits[tool]
        } else {
            Circuit::fresh(now)
        }
    }

    /// What holds of every circuit holds of each one here.
    pub open spec fn inv(self) -> bool {
        forall|tool: Seq<char>| #[trigger]
            self.circuits.dom().contains(tool) ==> self.circuits[tool].inv(
                self.settings.failure_threshold_for(tool),
                self.settings.half_open_max_inflight,
            )
    }

    /// The breaker with the given circuit for `tool`, and all other circuits as they are.
    pub open spec fn with_circuit(self, tool: Seq<char>, circuit: Circuit) -> Breaker {
        Breaker { circuits: self.circuits.insert(tool, circuit), ..self }
    }

    /// The breaker once it has met `tool`.
    pub open spec fn met(self, tool: Seq<char>, now: nat) -> Breaker {
        self.with_circuit(tool, self.circuit(tool, now))
    }

    /// What a request for `tool` is answered.
    pub open spec fn admission(self, tool: Seq<char>, now: nat) -> Admission {
        self.circuit(tool, now).admission(
            now,
            self.settings.cooldown_for(tool),
            self.settings.half_open_max_inflight,
        )
    }

    /// The breaker after a request for `tool`.
    pub open spec fn after_request(self, tool: Seq<char>, now: nat) -> Breaker {
        self.with_circuit(
            tool,
            self.circuit(tool, now).after_request(
                now,
                self.settings.cooldown_for(tool),
                self.settings.half_open_max_inflight,
            ),
        )
    }

    /// The breaker after a result of `tool`.
    pub open spec fn after_result(self, tool: Seq<char>, failed: bool, now: nat) -> Breaker {
        self.with_circuit(
            tool,
            self.circuit(tool, now).after_result(
                failed,
                now,
                self.settings.failure_threshold_for(tool),
            ),
        )
    }
}

} // verus!
