//! What the circuit breaker promises over several calls.

use vstd::prelude::*;

use crate::breaker::Breaker;
use crate::circuit::Circuit;
use crate::config::{override_of, ConfigFields, Settings, ToolSettings};

verus! {

/// One thing that can happen to a breaker.
pub enum Event {
    Request { tool: Seq<char>, now: nat },
    Result { tool: Seq<char>, failed: bool, now: nat },
}

/// How many failures in a row trip a circuit: the threshold, but never fewer than one.
pub open spec fn trip_point(threshold: nat) -> nat {
    if threshold == 0 {
        1
    } else {
        threshold
    }
}

/// Whether the event is a result of `tool`.
pub open spec fn is_result_of(event: Event, tool: Seq<char>) -> bool {
    event matches Event::Result { tool: answered, .. } && answered == tool
}

/// How many of the last results of `tool` failed in a row, with `earlier` failures in a row
/// before the events. Requests and other tools' results do not interrupt a run.
pub open spec fn failures_in_a_row(earlier: nat, tool: Seq<char>, events: Seq<Event>) -> nat
    decreases events.len(),
{
    if events.len() == 0 {
        earlier
    } else if !is_result_of(events.last(), tool) {
        failures_in_a_row(earlier, tool, events.drop_last())
    } else if events.last()->Result_failed {
        failures_in_a_row(earlier, tool, events.drop_last()) + 1
    } else {
        0
    }
}

/// Whether at some point of the events `length` failures of `tool` in a row had been seen.
pub open spec fn saw_failures_in_a_row(
    earlier: nat,
    tool: Seq<char>,
    events: Seq<Event>,
    length: nat,
) -> bool {
    exists|k: int|
        0 <= k <= events.len() && failures_in_a_row(earlier, tool, #[trigger] events.take(k))
            >= length
}

/// How many of the events are results of `tool`.
pub open spec fn results_of(tool: Seq<char>, events: Seq<Event>) -> nat
    decreases events.len(),
{
    if events.len() == 0 {
        0
    } else if is_result_of(events.last(), tool) {
        results_of(tool, events.drop_last()) + 1
    } else {
        results_of(tool, events.drop_last())
    }
}

/// The breaker after the given events.
pub open spec fn after_events(breaker: Breaker, events: Seq<Event>) -> Breaker
    decreases events.len(),
{
    if events.len() == 0 {
        breaker
    } else {
        let before = after_events(breaker, events.drop_last());
        match events.last() {
            Event::Request { tool, now } => before.after_request(tool, now),
            Event::Result { tool, failed, now } => before.after_result(tool, failed, now),
        }
    }
}

/// The circuit after requests at the given times, none of which is answered.
pub open spec fn after_requests(
    circuit: Circuit,
    times: Seq<nat>,
    cooldown_ms: nat,
    max_inflight: nat,
) -> Circuit
    decreases times.len(),
{
    if times.len() == 0 {
        circuit
    } else {
        after_requests(circuit, times.drop_last(), cooldown_ms, max_inflight).after_request(
            times.last(),
            cooldown_ms,
            max_inflight,
        )
    }
}

/// How many of the requests at the given times pass.
pub open spec fn admitted(
    circuit: Circuit,
    times: Seq<nat>,
    cooldown_ms: nat,
    max_inflight: nat,
) -> nat
    decreases times.len(),
{
    if times.len() == 0 {
        0
    } else {
        let before = after_requests(circuit, times.drop_last(), cooldown_ms, max_inflight);
        let earlier = admitted(circuit, times.drop_last(), cooldown_ms, max_inflight);
        if before.admission(times.last(), cooldown_ms, max_inflight) is Admitted {
            earlier + 1
        } else {
            earlier
        }
    }
}

/// A breaker that has met no tool lets every tool pass, at any time.
pub proof fn law_unknown_tools_pass(breaker: Breaker, tool: Seq<char>, now: nat)
    requires
        !breaker.circuits.dom().contains(tool),
    ensures
        breaker.admission(tool, now) is Admitted,
        breaker.after_request(tool, now).circuits[tool] == Circuit::fresh(now),
{
}

/// What holds of every circuit holds after any events whatever, for any tools at any times, and
/// the settings, the manifest and the time base stay as they are.
pub proof fn law_invariant_always_holds(breaker: Breaker, events: Seq<Event>)
    requires
        breaker.inv(),
    ensures
        after_events(breaker, events).inv(),
        after_events(breaker, events).settings == breaker.settings,
        after_events(breaker, events).manifest == breaker.manifest,
        after_events(breaker, events).origin == breaker.origin,
    decreases events.len(),
{
    if events.len() > 0 {
        law_invariant_always_holds(breaker, events.drop_last());
    }
}

/// The status changes along four edges only: closed to open, open to half-open, and half-open to
/// closed or to open. Requests take the second, results the others.
pub proof fn law_status_edges(
    circuit: Circuit,
    failed: bool,
    now: nat,
    threshold: nat,
    cooldown_ms: nat,
    max_inflight: nat,
)
    ensures
        ({
            let after = circuit.after_request(now, cooldown_ms, max_inflight).status;
            after != circuit.status ==> circuit.status is Open && after is HalfOpen
        }),
        ({
            let after = circuit.after_result(failed, now, threshold).status;
            after != circuit.status ==> {
                ||| circuit.status is Closed && after is Open
                ||| circuit.status is HalfOpen && after is Closed
                ||| circuit.status is HalfOpen && after is Open
            }
        }),
{
}

/// A denied request leaves the circuit as it was, and so does any request while it is closed.
pub proof fn law_denied_requests_leave_no_trace(
    circuit: Circuit,
    now: nat,
    cooldown_ms: nat,
    max_inflight: nat,
)
    ensures
        !(circuit.admission(now, cooldown_ms, max_inflight) is Admitted) ==> circuit.after_request(
            now,
            cooldown_ms,
            max_inflight,
        ) == circuit,
        circuit.status is Closed ==> circuit.after_request(now, cooldown_ms, max_inflight)
            == circuit,
{
}

/// The failures in a row that a breaker has counted for `tool`.
pub open spec fn counted(breaker: Breaker, tool: Seq<char>) -> nat {
    if breaker.circuits.dom().contains(tool) {
        breaker.circuits[tool].failure_count
    } else {
        0
    }
}

/// Whether the circuit of `tool` is closed, as it is for a tool not met yet.
pub open spec fn is_closed(breaker: Breaker, tool: Seq<char>) -> bool {
    breaker.circuits.dom().contains(tool) ==> breaker.circuits[tool].status is Closed
}

/// A run of failures is in all events but the last, or it ends with the last.
proof fn lemma_run_grows(earlier: nat, tool: Seq<char>, events: Seq<Event>, length: nat)
    requires
        events.len() > 0,
    ensures
        saw_failures_in_a_row(earlier, tool, events, length) <==> {
            ||| saw_failures_in_a_row(earlier, tool, events.drop_last(), length)
            ||| failures_in_a_row(earlier, tool, events) >= length
        },
{
    let n = events.len() as int;
    assert(events.take(n) =~= events);
    assert forall|k: int| 0 <= k < n implies events.drop_last().take(k) == events.take(k) by {
        assert(events.drop_last().take(k) =~= events.take(k));
    }
    if saw_failures_in_a_row(earlier, tool, events, length) {
        let k = choose|k: int|
            0 <= k <= n && failures_in_a_row(earlier, tool, #[trigger] events.take(k)) >= length;
        if k < n {
            assert(failures_in_a_row(earlier, tool, events.drop_last().take(k)) >= length);
        }
    }
    if saw_failures_in_a_row(earlier, tool, events.drop_last(), length) {
        let k = choose|k: int|
            0 <= k <= n - 1 && failures_in_a_row(
                earlier,
                tool,
                #[trigger] events.drop_last().take(k),
            ) >= length;
        assert(failures_in_a_row(earlier, tool, events.take(k)) >= length);
    }
}

/// Without a run that reaches the trip point the circuit is closed and has counted the run.
proof fn lemma_stays_closed(breaker: Breaker, tool: Seq<char>, events: Seq<Event>)
    requires
        breaker.inv(),
        is_closed(breaker, tool),
        !saw_failures_in_a_row(
            counted(breaker, tool),
            tool,
            events,
            trip_point(breaker.settings.failure_threshold_for(tool)),
        ),
    ensures
        ({
            let after = after_events(breaker, events);
            &&& after.settings == breaker.settings
            &&& is_closed(after, tool)
            &&& counted(after, tool) == failures_in_a_row(counted(breaker, tool), tool, events)
        }),
    decreases events.len(),
{
    if events.len() > 0 {
        let length = trip_point(breaker.settings.failure_threshold_for(tool));
        lemma_run_grows(counted(breaker, tool), tool, events, length);
        lemma_stays_closed(breaker, tool, events.drop_last());
    }
}

/// Whatever happens, to this tool and to others and in whatever order requests are answered, a
/// closed circuit stays closed and lets every request pass as long as no run of failures of the
/// tool reaches the threshold: a success in between starts the count anew. What is counted is
/// the failures in a row.
pub proof fn law_isolated_failures_never_trip(breaker: Breaker, tool: Seq<char>, events: Seq<Event>)
    requires
        breaker.inv(),
        is_closed(breaker, tool),
        !saw_failures_in_a_row(
            counted(breaker, tool),
            tool,
            events,
            trip_point(breaker.settings.failure_threshold_for(tool)),
        ),
    ensures
        is_closed(after_events(breaker, events), tool),
        counted(after_events(breaker, events), tool) == failures_in_a_row(
            counted(breaker, tool),
            tool,
            events,
        ),
        forall|k: int, now: nat|
            0 <= k <= events.len() ==> #[trigger] after_events(breaker, events.take(k)).admission(
                tool,
                now,
            ) is Admitted,
{
    let earlier = counted(breaker, tool);
    let length = trip_point(breaker.settings.failure_threshold_for(tool));
    lemma_stays_closed(breaker, tool, events);
    assert forall|k: int, now: nat| 0 <= k <= events.len() implies #[trigger] after_events(
        breaker,
        events.take(k),
    ).admission(tool, now) is Admitted by {
        let prefix = events.take(k);
        assert forall|j: int| 0 <= j <= prefix.len() implies failures_in_a_row(
            earlier,
            tool,
            #[trigger] prefix.take(j),
        ) < length by {
            assert(prefix.take(j) =~= events.take(j));
        }
        lemma_stays_closed(breaker, tool, prefix);
    }
}

/// The result that completes a run of as many failures as the threshold opens the circuit,
/// whatever else happened in between, and from then on requests are denied until the cooldown
/// has passed.
pub proof fn law_failures_in_a_row_trip(
    breaker: Breaker,
    tool: Seq<char>,
    events: Seq<Event>,
    now: nat,
)
    requires
        breaker.inv(),
        is_closed(breaker, tool),
        events.len() > 0,
        !saw_failures_in_a_row(
            counted(breaker, tool),
            tool,
            events.drop_last(),
            trip_point(breaker.settings.failure_threshold_for(tool)),
        ),
        failures_in_a_row(counted(breaker, tool), tool, events) >= trip_point(
            breaker.settings.failure_threshold_for(tool),
        ),
    ensures
        is_result_of(events.last(), tool),
        events.last()->Result_failed,
        ({
            let after = after_events(breaker, events);
            let tripped_at = events.last()->Result_now;
            &&& after.circuits.dom().contains(tool)
            &&& after.circuits[tool].status is Open
            &&& after.circuits[tool].last_transition == tripped_at
            &&& now < tripped_at + breaker.settings.cooldown_for(tool) * 1_000_000
                && breaker.settings.cooldown_for(tool) > 0 ==> after.admission(
                tool,
                now,
            ) is CoolingDown
        }),
{
    let shorter = events.drop_last();
    lemma_stays_closed(breaker, tool, shorter);
    assert(shorter.take(shorter.len() as int) =~= shorter);
}

/// As many failed results of a tool as its threshold, with no success of it in between, open a
/// circuit that has counted none; with any fewer it stays closed.
pub proof fn law_threshold_failures_open(breaker: Breaker, tool: Seq<char>, events: Seq<Event>)
    requires
        breaker.inv(),
        is_closed(breaker, tool),
        counted(breaker, tool) == 0,
        events.len() > 0,
        is_result_of(events.last(), tool),
        forall|i: int|
            0 <= i < events.len() && #[trigger] is_result_of(events[i], tool)
                ==> events[i]->Result_failed,
        results_of(tool, events) <= trip_point(breaker.settings.failure_threshold_for(tool)),
    ensures
        ({
            let after = after_events(breaker, events);
            if results_of(tool, events) < trip_point(
                breaker.settings.failure_threshold_for(tool),
            ) {
                is_closed(after, tool)
            } else {
                after.circuits.dom().contains(tool) && after.circuits[tool].status is Open
            }
        }),
{
    let length = trip_point(breaker.settings.failure_threshold_for(tool));
    let shorter = events.drop_last();
    assert forall|k: int| 0 <= k <= events.len() implies failures_in_a_row(
        0,
        tool,
        #[trigger] events.take(k),
    ) == results_of(tool, events.take(k)) && results_of(tool, events.take(k)) <= results_of(
        tool,
        events,
    ) by {
        lemma_all_failed(tool, events, k);
    }
    assert(events.take(events.len() as int) =~= events);
    if results_of(tool, events) < length {
        law_isolated_failures_never_trip(breaker, tool, events);
    } else {
        assert forall|k: int| 0 <= k <= shorter.len() implies failures_in_a_row(
            0,
            tool,
            #[trigger] shorter.take(k),
        ) < length by {
            assert(shorter.take(k) =~= events.take(k));
            lemma_prefix_results(tool, shorter, k);
        }
        law_failures_in_a_row_trip(breaker, tool, events, 0);
    }
}

/// The start of the events holds no more results than all of them.
proof fn lemma_prefix_results(tool: Seq<char>, events: Seq<Event>, k: int)
    requires
        0 <= k <= events.len(),
    ensures
        results_of(tool, events.take(k)) <= results_of(tool, events),
    decreases events.len(),
{
    if k == events.len() {
        assert(events.take(k) =~= events);
    } else {
        assert(events.drop_last().take(k) =~= events.take(k));
        lemma_prefix_results(tool, events.drop_last(), k);
    }
}

/// Results that all failed are that many failures in a row.
proof fn lemma_all_failed(tool: Seq<char>, events: Seq<Event>, k: int)
    requires
        0 <= k <= events.len(),
        forall|i: int|
            0 <= i < events.len() && #[trigger] is_result_of(events[i], tool)
                ==> events[i]->Result_failed,
    ensures
        failures_in_a_row(0, tool, events.take(k)) == results_of(tool, events.take(k)),
        results_of(tool, events.take(k)) <= results_of(tool, events),
    decreases k,
{
    lemma_prefix_results(tool, events, k);
    if k > 0 {
        lemma_all_failed(tool, events, k - 1);
        assert(events.take(k).drop_last() =~= events.take(k - 1));
        assert(events.take(k).last() == events[k - 1]);
    }
}

/// An open circuit denies every request until its cooldown has passed.
pub proof fn law_open_denies_during_cooldown(
    circuit: Circuit,
    now: nat,
    cooldown_ms: nat,
    max_inflight: nat,
)
    requires
        circuit.status is Open,
        now < circuit.last_transition + cooldown_ms * 1_000_000,
        cooldown_ms > 0,
    ensures
        circuit.admission(now, cooldown_ms, max_inflight) is CoolingDown,
        circuit.after_request(now, cooldown_ms, max_inflight) == circuit,
{
}

/// An open circuit stays as it is through any events, for this tool and for others, as long as no
/// request for the tool comes after its cooldown; until then each such request is denied.
pub proof fn law_open_holds_through_cooldown(
    breaker: Breaker,
    tool: Seq<char>,
    events: Seq<Event>,
    now: nat,
)
    requires
        breaker.circuits.dom().contains(tool),
        breaker.circuits[tool].status is Open,
        breaker.settings.cooldown_for(tool) > 0,
        now < breaker.circuits[tool].last_transition + breaker.settings.cooldown_for(tool)
            * 1_000_000,
        forall|i: int|
            0 <= i < events.len() && #[trigger] requests_tool(events[i], tool)
                ==> events[i]->Request_now < breaker.circuits[tool].last_transition
                + breaker.settings.cooldown_for(tool) * 1_000_000,
    ensures
        after_events(breaker, events).circuits.dom().contains(tool),
        after_events(breaker, events).circuits[tool] == breaker.circuits[tool],
        after_events(breaker, events).settings == breaker.settings,
        after_events(breaker, events).admission(tool, now) is CoolingDown,
    decreases events.len(),
{
    if events.len() > 0 {
        let earlier = events.drop_last();
        assert forall|i: int|
            0 <= i < earlier.len() && #[trigger] requests_tool(
                earlier[i],
                tool,
            ) implies earlier[i]->Request_now < breaker.circuits[tool].last_transition
            + breaker.settings.cooldown_for(tool) * 1_000_000 by {
            assert(requests_tool(events[i], tool));
        }
        law_open_holds_through_cooldown(breaker, tool, earlier, now);
        if requests_tool(events.last(), tool) {
            assert(requests_tool(events[events.len() - 1], tool));
        }
    }
}

/// Whether the event is a request for `tool`.
pub open spec fn requests_tool(event: Event, tool: Seq<char>) -> bool {
    event matches Event::Request { tool: asked, .. } && asked == tool
}

/// Once the cooldown has passed an open circuit lets a probe pass and turns half-open, provided
/// that probes are allowed at all.
pub proof fn law_cooldown_ends_in_a_probe(
    circuit: Circuit,
    now: nat,
    threshold: nat,
    cooldown_ms: nat,
    max_inflight: nat,
)
    requires
        circuit.status is Open,
        circuit.inv(threshold, max_inflight),
        now >= circuit.last_transition + cooldown_ms * 1_000_000,
        max_inflight >= 1,
    ensures
        circuit.admission(now, cooldown_ms, max_inflight) is Admitted,
        ({
            let after = circuit.after_request(now, cooldown_ms, max_inflight);
            after.status is HalfOpen && after.half_open_inflight == 1
        }),
{
}

/// However many requests come at whatever times, no more probes pass than are allowed in flight,
/// until a result comes in. Once the cooldown has passed, that many do.
pub proof fn law_probes_are_bounded(
    circuit: Circuit,
    times: Seq<nat>,
    threshold: nat,
    cooldown_ms: nat,
    max_inflight: nat,
)
    requires
        !(circuit.status is Closed),
        circuit.inv(threshold, max_inflight),
    ensures
        circuit.half_open_inflight + admitted(circuit, times, cooldown_ms, max_inflight)
            <= max_inflight,
        circuit.status is HalfOpen || (times.len() > 0 && circuit.cooled_down(
            times[0],
            cooldown_ms,
        )) ==> admitted(circuit, times, cooldown_ms, max_inflight) == if times.len()
            <= max_inflight - circuit.half_open_inflight {
            times.len() as int
        } else {
            max_inflight - circuit.half_open_inflight
        },
{
    lemma_requests(circuit, times, threshold, cooldown_ms, max_inflight);
}

/// Unanswered requests keep the invariant, and what passed is in flight.
proof fn lemma_requests(
    circuit: Circuit,
    times: Seq<nat>,
    threshold: nat,
    cooldown_ms: nat,
    max_inflight: nat,
)
    requires
        !(circuit.status is Closed),
        circuit.inv(threshold, max_inflight),
    ensures
        ({
            let after = after_requests(circuit, times, cooldown_ms, max_inflight);
            let passed = admitted(circuit, times, cooldown_ms, max_inflight);
            let ready = circuit.status is HalfOpen || (times.len() > 0 && circuit.cooled_down(
                times[0],
                cooldown_ms,
            ));
            &&& !(after.status is Closed)
            &&& after.inv(threshold, max_inflight)
            &&& after.half_open_inflight == circuit.half_open_inflight + passed
            &&& passed == 0 ==> after == circuit
            &&& after.half_open_inflight <= max_inflight
            &&& ready ==> {
                &&& passed == times.len() || after.half_open_inflight == max_inflight
                &&& passed <= times.len()
                &&& after.status is HalfOpen || max_inflight == 0
            }
        }),
    decreases times.len(),
{
    if times.len() > 0 {
        let shorter = times.drop_last();
        lemma_requests(circuit, shorter, threshold, cooldown_ms, max_inflight);
        if shorter.len() > 0 {
            assert(shorter[0] == times[0]);
        }
    }
}

/// How many of the requests for `tool` among the events pass.
pub open spec fn admitted_among(breaker: Breaker, tool: Seq<char>, events: Seq<Event>) -> nat
    decreases events.len(),
{
    if events.len() == 0 {
        0
    } else {
        let earlier = admitted_among(breaker, tool, events.drop_last());
        let before = after_events(breaker, events.drop_last());
        if requests_tool(events.last(), tool) && before.admission(
            tool,
            events.last()->Request_now,
        ) is Admitted {
            earlier + 1
        } else {
            earlier
        }
    }
}

/// Whatever happens to other tools meanwhile, as long as no result of a tripped tool comes in, no
/// more probes of it pass than are allowed, and those that passed are in flight.
pub proof fn law_probes_are_bounded_among_events(
    breaker: Breaker,
    tool: Seq<char>,
    events: Seq<Event>,
)
    requires
        breaker.inv(),
        breaker.circuits.dom().contains(tool),
        !(breaker.circuits[tool].status is Closed),
        forall|i: int| 0 <= i < events.len() ==> !is_result_of(#[trigger] events[i], tool),
    ensures
        ({
            let after = after_events(breaker, events);
            let passed = admitted_among(breaker, tool, events);
            &&& after.circuits.dom().contains(tool)
            &&& !(after.circuits[tool].status is Closed)
            &&& after.circuits[tool].half_open_inflight
                == breaker.circuits[tool].half_open_inflight + passed
            &&& after.circuits[tool].half_open_inflight <= breaker.settings.half_open_max_inflight
        }),
    decreases events.len(),
{
    law_invariant_always_holds(breaker, events);
    if events.len() > 0 {
        law_probes_are_bounded_among_events(breaker, tool, events.drop_last());
        assert(!is_result_of(events[events.len() - 1], tool));
    }
}

/// How many of the events are requests for `tool`.
pub open spec fn requests_for(tool: Seq<char>, events: Seq<Event>) -> nat
    decreases events.len(),
{
    if events.len() == 0 {
        0
    } else if requests_tool(events.last(), tool) {
        requests_for(tool, events.drop_last()) + 1
    } else {
        requests_for(tool, events.drop_last())
    }
}

/// Whatever happens to other tools meanwhile, as long as no result of a tripped tool comes in and
/// no request for it before its cooldown has passed, requests pass until as many probes are in
/// flight as the settings allow, and none after that.
pub proof fn law_probes_fill_what_is_allowed(breaker: Breaker, tool: Seq<char>, events: Seq<Event>)
    requires
        breaker.inv(),
        breaker.circuits.dom().contains(tool),
        !(breaker.circuits[tool].status is Closed),
        forall|i: int| 0 <= i < events.len() ==> !is_result_of(#[trigger] events[i], tool),
        breaker.circuits[tool].status is Open ==> forall|i: int|
            0 <= i < events.len() && #[trigger] requests_tool(events[i], tool)
                ==> events[i]->Request_now >= breaker.circuits[tool].last_transition
                + breaker.settings.cooldown_for(tool) * 1_000_000,
    ensures
        ({
            let room = breaker.settings.half_open_max_inflight
                - breaker.circuits[tool].half_open_inflight;
            admitted_among(breaker, tool, events) == if requests_for(tool, events) <= room {
                requests_for(tool, events) as int
            } else {
                room
            }
        }),
    decreases events.len(),
{
    if events.len() > 0 {
        let earlier = events.drop_last();
        assert forall|i: int| 0 <= i < earlier.len() implies !is_result_of(
            #[trigger] earlier[i],
            tool,
        ) by {
            assert(!is_result_of(events[i], tool));
        }
        if breaker.circuits[tool].status is Open {
            assert forall|i: int|
                0 <= i < earlier.len() && #[trigger] requests_tool(
                    earlier[i],
                    tool,
                ) implies earlier[i]->Request_now >= breaker.circuits[tool].last_transition
                + breaker.settings.cooldown_for(tool) * 1_000_000 by {
                assert(requests_tool(events[i], tool));
            }
        }
        law_probes_fill_what_is_allowed(breaker, tool, earlier);
        law_probes_are_bounded_among_events(breaker, tool, earlier);
        law_invariant_always_holds(breaker, earlier);
        lemma_open_without_probes_is_untouched(breaker, tool, earlier);
        assert(!is_result_of(events[events.len() - 1], tool));
        if requests_tool(events.last(), tool) {
            assert(requests_tool(events[events.len() - 1], tool));
        }
    } else {
        law_what_is_in_flight(breaker, tool);
    }
}

/// No more probes are in flight than the settings allow.
pub proof fn law_what_is_in_flight(breaker: Breaker, tool: Seq<char>)
    requires
        breaker.inv(),
        breaker.circuits.dom().contains(tool),
    ensures
        breaker.circuits[tool].half_open_inflight <= breaker.settings.half_open_max_inflight,
{
}

/// A circuit that is still open, or was half-open all along, has kept its last transition.
proof fn lemma_open_without_probes_is_untouched(
    breaker: Breaker,
    tool: Seq<char>,
    events: Seq<Event>,
)
    requires
        breaker.inv(),
        breaker.circuits.dom().contains(tool),
        !(breaker.circuits[tool].status is Closed),
        forall|i: int| 0 <= i < events.len() ==> !is_result_of(#[trigger] events[i], tool),
    ensures
        after_events(breaker, events).circuits.dom().contains(tool),
        !(after_events(breaker, events).circuits[tool].status is Closed),
        after_events(breaker, events).circuits[tool].status is Open ==> after_events(
            breaker,
            events,
        ).circuits[tool] == breaker.circuits[tool],
    decreases events.len(),
{
    if events.len() > 0 {
        let earlier = events.drop_last();
        assert forall|i: int| 0 <= i < earlier.len() implies !is_result_of(
            #[trigger] earlier[i],
            tool,
        ) by {
            assert(!is_result_of(events[i], tool));
        }
        lemma_open_without_probes_is_untouched(breaker, tool, earlier);
        assert(!is_result_of(events[events.len() - 1], tool));
    }
}

/// A probe that succeeds closes the circuit with nothing counted, and the next request passes.
pub proof fn law_successful_probe_closes(
    circuit: Circuit,
    now: nat,
    later: nat,
    threshold: nat,
    cooldown_ms: nat,
    max_inflight: nat,
)
    requires
        circuit.status is HalfOpen,
    ensures
        ({
            let after = circuit.after_result(false, now, threshold);
            &&& after.status is Closed
            &&& after.failure_count == 0
            &&& after.half_open_inflight == 0
            &&& after.admission(later, cooldown_ms, max_inflight) is Admitted
        }),
{
}

/// A probe that fails opens the circuit again, and the cooldown starts anew.
pub proof fn law_failed_probe_reopens(
    circuit: Circuit,
    now: nat,
    later: nat,
    threshold: nat,
    cooldown_ms: nat,
    max_inflight: nat,
)
    requires
        circuit.status is HalfOpen,
        later < now + cooldown_ms * 1_000_000,
        cooldown_ms > 0,
    ensures
        ({
            let after = circuit.after_result(true, now, threshold);
            &&& after.status is Open
            &&& after.last_transition == now
            &&& after.half_open_inflight == 0
            &&& after.admission(later, cooldown_ms, max_inflight) is CoolingDown
        }),
{
}

/// A tripped tool recovers: once the cooldown has passed a probe is let through, and when it
/// succeeds the circuit is closed with nothing counted and lets every later call through.
pub proof fn law_tripped_tool_recovers(
    breaker: Breaker,
    tool: Seq<char>,
    asked_at: nat,
    answered_at: nat,
    later: nat,
)
    requires
        breaker.inv(),
        breaker.circuits.dom().contains(tool),
        breaker.circuits[tool].status is Open,
        breaker.settings.half_open_max_inflight >= 1,
        asked_at >= breaker.circuits[tool].last_transition + breaker.settings.cooldown_for(tool)
            * 1_000_000,
    ensures
        breaker.admission(tool, asked_at) is Admitted,
        ({
            let after = breaker.after_request(tool, asked_at).after_result(
                tool,
                false,
                answered_at,
            );
            &&& after.circuits[tool].status is Closed
            &&& counted(after, tool) == 0
            &&& after.admission(tool, later) is Admitted
        }),
{
}

/// A result that comes in while the circuit is open, of a call that passed before, changes
/// nothing.
pub proof fn law_late_results_are_ignored(
    circuit: Circuit,
    failed: bool,
    now: nat,
    threshold: nat,
)
    requires
        circuit.status is Open,
    ensures
        circuit.after_result(failed, now, threshold) == circuit,
{
}

/// A success while closed clears the count; a failure adds one to it.
pub proof fn law_success_clears_the_count(circuit: Circuit, now: nat, threshold: nat)
    requires
        circuit.status is Closed,
    ensures
        circuit.after_result(false, now, threshold) == (Circuit { failure_count: 0, ..circuit }),
        circuit.failure_count + 1 < threshold ==> circuit.after_result(
            true,
            now,
            threshold,
        ).failure_count == circuit.failure_count + 1,
{
}

/// When no probes are allowed, an open circuit stays open for good.
pub proof fn law_without_probes_open_is_final(
    breaker: Breaker,
    tool: Seq<char>,
    events: Seq<Event>,
    now: nat,
)
    requires
        breaker.settings.half_open_max_inflight == 0,
        breaker.circuits.dom().contains(tool),
        breaker.circuits[tool].status is Open,
    ensures
        after_events(breaker, events).circuits.dom().contains(tool),
        after_events(breaker, events).circuits[tool] == breaker.circuits[tool],
        after_events(breaker, events).settings == breaker.settings,
        !(after_events(breaker, events).admission(tool, now) is Admitted),
    decreases events.len(),
{
    if events.len() > 0 {
        law_without_probes_open_is_final(breaker, tool, events.drop_last(), now);
    }
}

/// What happens to one tool leaves every other tool's circuit as it was, and its answers too.
pub proof fn law_tools_are_independent(
    breaker: Breaker,
    tool: Seq<char>,
    other: Seq<char>,
    failed: bool,
    now: nat,
    later: nat,
)
    requires
        tool != other,
    ensures
        breaker.after_request(tool, now).circuit(other, later) == breaker.circuit(other, later),
        breaker.after_result(tool, failed, now).circuit(other, later) == breaker.circuit(
            other,
            later,
        ),
        breaker.after_request(tool, now).admission(other, later) == breaker.admission(other, later),
        breaker.after_result(tool, failed, now).admission(other, later) == breaker.admission(
            other,
            later,
        ),
{
}

/// Requests and results of different tools can be taken in either order.
pub proof fn law_tools_commute(
    breaker: Breaker,
    tool: Seq<char>,
    other: Seq<char>,
    failed: bool,
    other_failed: bool,
    now: nat,
    later: nat,
)
    requires
        tool != other,
    ensures
        breaker.after_request(tool, now).after_request(other, later) == breaker.after_request(
            other,
            later,
        ).after_request(tool, now),
        breaker.after_result(tool, failed, now).after_request(other, later)
            == breaker.after_request(other, later).after_result(tool, failed, now),
        breaker.after_result(tool, failed, now).after_result(other, other_failed, later)
            == breaker.after_result(other, other_failed, later).after_result(tool, failed, now),
{
    assert(breaker.after_request(tool, now).after_request(other, later) =~= breaker.after_request(
        other,
        later,
    ).after_request(tool, now));
    assert(breaker.after_result(tool, failed, now).after_request(other, later)
        =~= breaker.after_request(other, later).after_result(tool, failed, now));
    assert(breaker.after_result(tool, failed, now).after_result(other, other_failed, later)
        =~= breaker.after_result(other, other_failed, later).after_result(tool, failed, now));
}

/// A tool without an override of its exact name has the plugin-wide threshold and cooldown.
pub proof fn law_no_override_means_plugin_wide(settings: Settings, tool: Seq<char>)
    requires
        forall|i: int|
            0 <= i < settings.per_tool.len() ==> (#[trigger] settings.per_tool[i]).tool != tool,
    ensures
        settings.failure_threshold_for(tool) == settings.failure_threshold,
        settings.cooldown_for(tool) == settings.cooldown_ms,
{
    lemma_no_override(settings.per_tool, tool);
}

proof fn lemma_no_override(per_tool: Seq<ToolSettings>, tool: Seq<char>)
    requires
        forall|i: int| 0 <= i < per_tool.len() ==> (#[trigger] per_tool[i]).tool != tool,
    ensures
        override_of(per_tool, tool) is None,
    decreases per_tool.len(),
{
    if per_tool.len() > 0 {
        assert forall|i: int| 0 <= i < per_tool.skip(1).len() implies (#[trigger] per_tool.skip(
            1,
        )[i]).tool != tool by {
            assert(per_tool.skip(1)[i] == per_tool[i + 1]);
        }
        lemma_no_override(per_tool.skip(1), tool);
    }
}

/// The first override of a tool's exact name decides: what it gives holds, and what it leaves out
/// is plugin-wide.
pub proof fn law_first_override_decides(settings: Settings, tool: Seq<char>, i: int)
    requires
        0 <= i < settings.per_tool.len(),
        settings.per_tool[i].tool == tool,
        forall|j: int| 0 <= j < i ==> (#[trigger] settings.per_tool[j]).tool != tool,
    ensures
        settings.failure_threshold_for(tool) == match settings.per_tool[i].failure_threshold {
            Some(n) => n,
            None => settings.failure_threshold,
        },
        settings.cooldown_for(tool) == match settings.per_tool[i].cooldown_ms {
            Some(ms) => ms,
            None => settings.cooldown_ms,
        },
{
    lemma_first_override(settings.per_tool, tool, i);
}

proof fn lemma_first_override(per_tool: Seq<ToolSettings>, tool: Seq<char>, i: int)
    requires
        0 <= i < per_tool.len(),
        per_tool[i].tool == tool,
        forall|j: int| 0 <= j < i ==> (#[trigger] per_tool[j]).tool != tool,
    ensures
        override_of(per_tool, tool) == Some(per_tool[i]),
    decreases i,
{
    if i > 0 {
        assert(per_tool[0].tool != tool);
        assert forall|j: int| 0 <= j < i - 1 implies (#[trigger] per_tool.skip(1)[j]).tool
            != tool by {
            assert(per_tool.skip(1)[j] == per_tool[j + 1]);
        }
        lemma_first_override(per_tool.skip(1), tool, i - 1);
    }
}

/// The configured status codes have no say in any answer or any circuit.
pub proof fn law_status_codes_have_no_say(
    breaker: Breaker,
    codes: Seq<u16>,
    tool: Seq<char>,
    failed: bool,
    now: nat,
)
    ensures
        ({
            let other = Breaker {
                settings: Settings { failure_status_codes: codes, ..breaker.settings },
                ..breaker
            };
            &&& other.admission(tool, now) == breaker.admission(tool, now)
            &&& other.after_request(tool, now).circuits == breaker.after_request(tool, now).circuits
            &&& other.after_result(tool, failed, now).circuits == breaker.after_result(
                tool,
                failed,
                now,
            ).circuits
        }),
{
}

/// A block that gives no field means the defaults.
pub proof fn law_empty_block_means_defaults(fields: ConfigFields)
    requires
        fields.failure_threshold is None,
        fields.cooldown_ms is None,
        fields.half_open_max_inflight is None,
        fields.failure_status_codes is None,
        fields.per_tool is None,
    ensures
        fields.settings() == Settings::defaults(),
{
}

} // verus!
