//! The circuit of a single tool: a three-state machine driven by requests and results.
//!
//! Times are nanoseconds since a fixed starting point of the owner's choice.

use vstd::prelude::*;

verus! {

/// Nanoseconds in one millisecond.
pub const NANOS_PER_MILLI: u128 = 1_000_000;

/// State of a per-tool circuit breaker.
#[derive(Clone, Copy, Debug, PartialEq, Eq, Structural)]
pub enum CircuitStatus {
    /// Requests pass; consecutive failures are counted.
    Closed,
    /// Requests are denied until the cooldown has passed.
    Open,
    /// A bounded number of probes pass; everything else is denied.
    HalfOpen,
}

impl CircuitStatus {
    /// The name under which the status is reported.
    pub open spec fn label(self) -> Seq<char> {
        match self {
            CircuitStatus::Closed => "closed"@,
            CircuitStatus::Open => "open"@,
            CircuitStatus::HalfOpen => "half_open"@,
        }
    }

    /// The name under which the status is reported.
    pub fn to_string(&self) -> (label: String)
        ensures
            label@ == self.label(),
    {
        match self {
            CircuitStatus::Closed => "closed".to_owned(),
            CircuitStatus::Open => "open".to_owned(),
            CircuitStatus::HalfOpen => "half_open".to_owned(),
        }
    }
}

/// A change of status, as it is reported.
#[derive(Clone, Copy, Debug, PartialEq, Eq, Structural)]
pub struct Transition {
    pub from: CircuitStatus,
    pub to: CircuitStatus,
}

/// The report due for a move from `from` to `to`: none when nothing changed.
pub open spec fn transition_between(from: CircuitStatus, to: CircuitStatus) -> Option<Transition> {
    if from == to {
        None
    } else {
        Some(Transition { from, to })
    }
}

/// What a circuit answers to a request.
#[derive(Clone, Copy, Debug, PartialEq, Eq, Structural)]
pub enum Admission {
    /// The request passes.
    Admitted,
    /// The circuit is open and its cooldown has not passed.
    CoolingDown,
    /// All probes that may be in flight already are.
    Saturated,
}

/// The mathematical state of a circuit.
pub struct Circuit {
    pub status: CircuitStatus,
    /// Consecutive failures seen while closed.
    pub failure_count: nat,
    /// When a failure was last counted.
    pub last_failure: Option<nat>,
    /// When the status was last set.
    pub last_transition: nat,
    /// Probes admitted since the circuit opened and not yet answered.
    pub half_open_inflight: nat,
}

impl Circuit {
    /// The circuit of a tool that nothing is known of.
    pub open spec fn fresh(now: nat) -> Circuit {
        Circuit {
            status: CircuitStatus::Closed,
            failure_count: 0,
            last_failure: None,
            last_transition: now,
            half_open_inflight: 0,
        }
    }

    /// The circuit with its status set at time `now`.
    pub open spec fn moved_to(self, status: CircuitStatus, now: nat) -> Circuit {
        Circuit { status, last_transition: now, ..self }
    }

    /// Nanoseconds since the status was last set; none for a clock that reads an earlier time.
    pub open spec fn elapsed(self, now: nat) -> nat {
        if now >= self.last_transition {
            (now - self.last_transition) as nat
        } else {
            0
        }
    }

    /// Whether the circuit has held its status for at least `cooldown_ms` milliseconds.
    pub open spec fn cooled_down(self, now: nat, cooldown_ms: nat) -> bool {
        self.elapsed(now) >= cooldown_ms * 1_000_000
    }

    /// Whole milliseconds of the cooldown that are left.
    pub open spec fn remaining_ms(self, now: nat, cooldown_ms: nat) -> nat {
        if self.cooled_down(now, cooldown_ms) {
            0
        } else {
            ((cooldown_ms * 1_000_000 - self.elapsed(now)) / 1_000_000) as nat
        }
    }

    /// What a request at time `now` is answered.
    pub open spec fn admission(self, now: nat, cooldown_ms: nat, max_inflight: nat) -> Admission {
        if self.status is Closed {
            Admission::Admitted
        } else if self.status is Open && !self.cooled_down(now, cooldown_ms) {
            Admission::CoolingDown
        } else if self.half_open_inflight < max_inflight {
            Admission::Admitted
        } else {
            Admission::Saturated
        }
    }

    /// The circuit after a request at time `now`: an admitted probe is in flight, and the first
    /// one moves an open circuit to half-open.
    pub open spec fn after_request(self, now: nat, cooldown_ms: nat, max_inflight: nat) -> Circuit {
        if self.status is Closed || !(self.admission(now, cooldown_ms, max_inflight) is Admitted) {
            self
        } else {
            let probing = Circuit { half_open_inflight: self.half_open_inflight + 1, ..self };
            if self.status is Open {
                probing.moved_to(CircuitStatus::HalfOpen, now)
            } else {
                probing
            }
        }
    }

    /// The circuit after a result at time `now`.
    pub open spec fn after_result(self, failed: bool, now: nat, threshold: nat) -> Circuit {
        match self.status {
            CircuitStatus::Closed => {
                if !failed {
                    Circuit { failure_count: 0, ..self }
                } else {
                    let counted = Circuit {
                        failure_count: self.failure_count + 1,
                        last_failure: Some(now),
                        ..self
                    };
                    if counted.failure_count < threshold {
                        counted
                    } else {
                        Circuit { failure_count: 0, half_open_inflight: 0, ..counted }.moved_to(
                            CircuitStatus::Open,
                            now,
                        )
                    }
                }
            },
            CircuitStatus::HalfOpen => {
                let answered = Circuit { half_open_inflight: 0, ..self };
                if failed {
                    answered.moved_to(CircuitStatus::Open, now)
                } else {
                    Circuit { failure_count: 0, ..answered }.moved_to(CircuitStatus::Closed, now)
                }
            },
            CircuitStatus::Open => self,
        }
    }

    /// What holds of every circuit between two operations: the failure count stays below the
    /// threshold and is kept only while closed, and probes are in flight exactly while half-open,
    /// never more than allowed.
    pub open spec fn inv(self, threshold: nat, max_inflight: nat) -> bool {
        match self.status {
            CircuitStatus::Closed => {
                &&& self.failure_count == 0 || self.failure_count < threshold
                &&& self.half_open_inflight == 0
            },
            CircuitStatus::Open => {
                &&& self.failure_count == 0
                &&& self.half_open_inflight == 0
            },
            CircuitStatus::HalfOpen => {
                &&& self.failure_count == 0
                &&& 1 <= self.half_open_inflight <= max_inflight
            },
        }
    }
}

/// State of a single tool's circuit breaker.
#[derive(Clone, Copy, Debug)]
pub struct CircuitState {
    status: CircuitStatus,
    failure_count: u32,
    last_failure: Option<u128>,
    last_transition: u128,
    half_open_inflight: u32,
}

impl View for CircuitState {
    type V = Circuit;

    closed spec fn view(&self) -> Circuit {
        Circuit {
            status: self.status,
            failure_count: self.failure_count as nat,
            last_failure: match self.last_failure {
                Some(at) => Some(at as nat),
                None => None,
            },
            last_transition: self.last_transition as nat,
            half_open_inflight: self.half_open_inflight as nat,
        }
    }
}

impl CircuitState {
    /// A closed circuit with nothing counted.
    pub fn new(now: u128) -> (state: Self)
        ensures
            state@ == Circuit::fresh(now as nat),
    {
        CircuitState {
            status: CircuitStatus::Closed,
            failure_count: 0,
            last_failure: None,
            last_transition: now,
            half_open_inflight: 0,
        }
    }

    /// The current status.
    pub fn status(&self) -> (status: CircuitStatus)
        ensures
            status == self@.status,
    {
        self.status
    }

    /// Consecutive failures seen while closed.
    pub fn failure_count(&self) -> (count: u32)
        ensures
            count == self@.failure_count,
    {
        self.failure_count
    }

    /// Probes in flight.
    pub fn half_open_inflight(&self) -> (count: u32)
        ensures
            count == self@.half_open_inflight,
    {
        self.half_open_inflight
    }

    /// Whole milliseconds of the cooldown that are left at time `now`.
    pub fn remaining_ms(&self, now: u128, cooldown_ms: u64) -> (ms: u128)
        ensures
            ms == self@.remaining_ms(now as nat, cooldown_ms as nat),
    {
        let cooldown: u128 = (cooldown_ms as u128) * NANOS_PER_MILLI;
        let elapsed: u128 = now.saturating_sub(self.last_transition);
        cooldown.saturating_sub(elapsed) / NANOS_PER_MILLI
    }

    /// Sets the status and notes the time; the change is returned when there is one.
    pub fn transition_to(&mut self, new_status: CircuitStatus, now: u128) -> (transition: Option<
        Transition,
    >)
        ensures
            final(self)@ == old(self)@.moved_to(new_status, now as nat),
            transition == transition_between(old(self)@.status, new_status),
    {
        let old_status = self.status;
        self.status = new_status;
        self.last_transition = now;
        if old_status != new_status {
            Some(Transition { from: old_status, to: new_status })
        } else {
            None
        }
    }

    /// Answers a request at time `now`.
    pub fn request(&mut self, now: u128, cooldown_ms: u64, max_inflight: u32) -> (answer: (
        Admission,
        Option<Transition>,
    ))
        ensures
            answer.0 == old(self)@.admission(now as nat, cooldown_ms as nat, max_inflight as nat),
            answer.1 == transition_between(old(self)@.status, final(self)@.status),
            final(self)@ == old(self)@.after_request(
                now as nat,
                cooldown_ms as nat,
                max_inflight as nat,
            ),
    {
        match self.status {
            CircuitStatus::Closed => (Admission::Admitted, None),
            CircuitStatus::Open => {
                let cooldown: u128 = (cooldown_ms as u128) * NANOS_PER_MILLI;
                let elapsed: u128 = now.saturating_sub(self.last_transition);
                if elapsed >= cooldown {
                    // The cooldown has passed: try half-open.
                    if self.half_open_inflight < max_inflight {
                        self.half_open_inflight = self.half_open_inflight + 1;
                        let transition = self.transition_to(CircuitStatus::HalfOpen, now);
                        (Admission::Admitted, transition)
                    } else {
                        (Admission::Saturated, None)
                    }
                } else {
                    (Admission::CoolingDown, None)
                }
            },
            CircuitStatus::HalfOpen => {
                if self.half_open_inflight < max_inflight {
                    self.half_open_inflight = self.half_open_inflight + 1;
                    (Admission::Admitted, None)
                } else {
                    (Admission::Saturated, None)
                }
            },
        }
    }

    /// Takes note of a result at time `now`.
    pub fn record(&mut self, failed: bool, now: u128, threshold: u32) -> (transition: Option<
        Transition,
    >)
        requires
            failed && old(self)@.status is Closed ==> old(self)@.failure_count < u32::MAX,
        ensures
            transition == transition_between(old(self)@.status, final(self)@.status),
            final(self)@ == old(self)@.after_result(failed, now as nat, threshold as nat),
    {
        match self.status {
            CircuitStatus::Closed => {
                if failed {
                    self.failure_count = self.failure_count + 1;
                    self.last_failure = Some(now);
                    if self.failure_count >= threshold {
                        let transition = self.transition_to(CircuitStatus::Open, now);
                        self.failure_count = 0;
                        self.half_open_inflight = 0;
                        transition
                    } else {
                        None
                    }
                } else {
                    self.failure_count = 0;
                    None
                }
            },
            CircuitStatus::HalfOpen => {
                self.half_open_inflight = 0;
                if failed {
                    self.transition_to(CircuitStatus::Open, now)
                } else {
                    self.failure_count = 0;
                    self.transition_to(CircuitStatus::Closed, now)
                }
            },
            // A result of a request that passed before the circuit opened.
            CircuitStatus::Open => None,
        }
    }
}

} // verus!
