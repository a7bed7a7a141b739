use mcpg_plugin_reliability_circuit_breaker::{
    CircuitBreakerConfig, CircuitBreakerPlugin, CircuitState, CircuitStatus, GateDecision,
    JsonValue, PluginContext, ToolOverride, Transition,
};
use std::time::{Duration, Instant};

const MILLI: u128 = 1_000_000;

fn test_ctx(tool: &str) -> PluginContext {
    PluginContext {
        tool_name: tool.to_owned(),
    }
}

fn text(s: &str) -> JsonValue {
    JsonValue::String(s.to_owned())
}

fn content_result(kind: &str, body: &str, is_error: bool) -> JsonValue {
    JsonValue::Object(vec![
        (
            "content".to_owned(),
            JsonValue::Array(vec![JsonValue::Object(vec![
                ("type".to_owned(), text(kind)),
                ("text".to_owned(), text(body)),
            ])]),
        ),
        ("isError".to_owned(), JsonValue::Bool(is_error)),
    ])
}

fn success_result() -> JsonValue {
    content_result("text", "ok", false)
}

fn failure_result() -> JsonValue {
    content_result("text", "error", true)
}

fn wait(duration: Duration) {
    let start = Instant::now();
    while start.elapsed() < duration {}
}

fn config(failure_threshold: u32, cooldown_ms: u64, probes: u32) -> CircuitBreakerConfig {
    CircuitBreakerConfig {
        failure_threshold,
        cooldown_ms,
        half_open_max_inflight: probes,
        ..Default::default()
    }
}

fn status(plugin: &mut CircuitBreakerPlugin, tool: &str) -> CircuitStatus {
    plugin.get_or_create_circuit(tool).status()
}

#[test]
fn closed_allows_requests() {
    let mut plugin = CircuitBreakerPlugin::new(CircuitBreakerConfig::default());
    let ctx = test_ctx("test_tool");
    let result = plugin.evaluate_pre(&ctx);
    assert!(result.decision.is_allow());
}

#[test]
fn failures_trip_circuit() {
    let mut plugin = CircuitBreakerPlugin::new(CircuitBreakerConfig {
        failure_threshold: 3,
        cooldown_ms: 60_000,
        ..Default::default()
    });
    let ctx = test_ctx("test_tool");
    let fail = failure_result();

    // 3 failures should trip the circuit
    for _ in 0..3 {
        plugin.evaluate_pre(&ctx);
        plugin.evaluate_post(&ctx, &fail);
    }

    // Next request should be denied
    let result = plugin.evaluate_pre(&ctx);
    assert!(!result.decision.is_allow());
}

#[test]
fn open_circuit_denies_fast() {
    let mut plugin = CircuitBreakerPlugin::new(CircuitBreakerConfig {
        failure_threshold: 1,
        cooldown_ms: 60_000, // long cooldown
        ..Default::default()
    });
    let ctx = test_ctx("test_tool");

    // Trip the circuit
    plugin.evaluate_pre(&ctx);
    plugin.evaluate_post(&ctx, &failure_result());

    // Should deny immediately
    let start = Instant::now();
    let result = plugin.evaluate_pre(&ctx);
    let elapsed = start.elapsed();

    assert!(!result.decision.is_allow());
    assert!(
        elapsed.as_millis() < 10,
        "denial should be fast, was {}ms",
        elapsed.as_millis()
    );
}

#[test]
fn cooldown_transitions_to_half_open() {
    let mut plugin = CircuitBreakerPlugin::new(config(1, 1, 1));
    let ctx = test_ctx("test_tool");

    // Trip the circuit
    plugin.evaluate_pre(&ctx);
    plugin.evaluate_post(&ctx, &failure_result());

    // Wait for cooldown
    wait(Duration::from_millis(10));

    // Should allow a probe (transitions to half-open)
    let result = plugin.evaluate_pre(&ctx);
    assert!(result.decision.is_allow());
    assert_eq!(status(&mut plugin, "test_tool"), CircuitStatus::HalfOpen);
}

#[test]
fn half_open_success_closes_circuit() {
    let mut plugin = CircuitBreakerPlugin::new(config(1, 1, 1));
    let ctx = test_ctx("test_tool");

    // Trip the circuit
    plugin.evaluate_pre(&ctx);
    plugin.evaluate_post(&ctx, &failure_result());

    wait(Duration::from_millis(10));

    // Probe succeeds
    plugin.evaluate_pre(&ctx);
    plugin.evaluate_post(&ctx, &success_result());

    // Circuit should be closed: next request should be allowed
    let result = plugin.evaluate_pre(&ctx);
    assert!(result.decision.is_allow());
}

#[test]
fn half_open_failure_reopens_circuit() {
    let mut plugin = CircuitBreakerPlugin::new(config(1, 1, 1));
    let ctx = test_ctx("test_tool");

    // Trip and wait for cooldown
    plugin.evaluate_pre(&ctx);
    plugin.evaluate_post(&ctx, &failure_result());
    wait(Duration::from_millis(10));

    // Probe fails
    plugin.evaluate_pre(&ctx);
    plugin.evaluate_post(&ctx, &failure_result());

    // Circuit should be open again
    let circuit = plugin.get_or_create_circuit("test_tool");
    assert_eq!(circuit.status(), CircuitStatus::Open);
}

#[test]
fn per_tool_override() {
    let mut plugin = CircuitBreakerPlugin::new(CircuitBreakerConfig {
        failure_threshold: 10, // high default
        per_tool: vec![ToolOverride {
            tool: "fragile_tool".to_owned(),
            failure_threshold: Some(1),
            cooldown_ms: None,
        }],
        ..Default::default()
    });
    let ctx = test_ctx("fragile_tool");

    // 1 failure should trip for the overridden tool
    plugin.evaluate_pre(&ctx);
    plugin.evaluate_post(&ctx, &failure_result());

    let result = plugin.evaluate_pre(&ctx);
    assert!(!result.decision.is_allow());

    // Default-threshold tool should still be closed
    let ctx2 = test_ctx("normal_tool");
    let result2 = plugin.evaluate_pre(&ctx2);
    assert!(result2.decision.is_allow());
}

#[test]
fn success_resets_failure_count() {
    let mut plugin = CircuitBreakerPlugin::new(CircuitBreakerConfig {
        failure_threshold: 3,
        ..Default::default()
    });
    let ctx = test_ctx("test_tool");

    // 2 failures (below threshold)
    for _ in 0..2 {
        plugin.evaluate_pre(&ctx);
        plugin.evaluate_post(&ctx, &failure_result());
    }

    // 1 success resets
    plugin.evaluate_pre(&ctx);
    plugin.evaluate_post(&ctx, &success_result());

    // 2 more failures shouldn't trip (count was reset)
    for _ in 0..2 {
        plugin.evaluate_pre(&ctx);
        plugin.evaluate_post(&ctx, &failure_result());
    }

    let result = plugin.evaluate_pre(&ctx);
    assert!(result.decision.is_allow());
}

#[test]
fn denial_names_circuit_and_tool() {
    let mut plugin = CircuitBreakerPlugin::new(config(1, 60_000, 1));
    let ctx = test_ctx("billing.charge");
    plugin.evaluate_post_inner(&ctx, &failure_result(), 0);
    let result = plugin.evaluate_pre_inner(&ctx, 1);
    assert!(result.rejected);
    assert_eq!(result.decision.outcome(), "deny");
    match result.decision {
        GateDecision::Deny {
            http_status,
            code,
            message,
            error_data: Some(data),
        } => {
            assert_eq!(http_status, 503);
            assert_eq!(code, -32000);
            assert_eq!(
                message,
                "circuit breaker open for tool 'billing.charge' — backend unavailable"
            );
            let state = data.get("circuit_state").and_then(|v| v.as_str());
            assert_eq!(state.map(|s| s.as_str()), Some("open"));
            let tool = data.get("tool").and_then(|v| v.as_str());
            assert_eq!(tool.map(|s| s.as_str()), Some("billing.charge"));
        }
        _ => panic!("not a denial with data"),
    }
}

#[test]
fn cooldown_ends_to_the_nanosecond() {
    let mut plugin = CircuitBreakerPlugin::new(config(1, 30, 1));
    let ctx = test_ctx("t");
    let tripped = plugin.evaluate_post_inner(&ctx, &failure_result(), 500);
    assert!(tripped.decision.is_allow());
    assert_eq!(
        tripped.transition,
        Some(Transition {
            from: CircuitStatus::Closed,
            to: CircuitStatus::Open
        })
    );
    let early = plugin.evaluate_pre_inner(&ctx, 500 + 30 * MILLI - 1);
    assert!(!early.decision.is_allow());
    assert!(early.rejected);
    assert_eq!(early.transition, None);
    let probe = plugin.evaluate_pre_inner(&ctx, 500 + 30 * MILLI);
    assert!(probe.decision.is_allow());
    assert_eq!(probe.decision.outcome(), "allow");
    assert_eq!(
        probe.transition,
        Some(Transition {
            from: CircuitStatus::Open,
            to: CircuitStatus::HalfOpen
        })
    );
    // The one probe is in flight: a denial, but no rejection by an open circuit.
    let second = plugin.evaluate_pre_inner(&ctx, 500 + 31 * MILLI);
    assert!(!second.decision.is_allow());
    assert!(!second.rejected);
}

#[test]
fn evaluations_tell_what_they_found() {
    let mut plugin = CircuitBreakerPlugin::new(config(2, 30, 2));
    let ctx = test_ctx("t");
    plugin.evaluate_post_inner(&ctx, &failure_result(), 0);
    let tripped = plugin.evaluate_post_inner(&ctx, &failure_result(), 5);
    assert_eq!(tripped.found.status(), CircuitStatus::Closed);
    assert_eq!(tripped.found.failure_count(), 1);
    assert_eq!(tripped.now, 5);
    let denied = plugin.evaluate_pre_inner(&ctx, 5 + 12 * MILLI + 1);
    assert_eq!(denied.found.status(), CircuitStatus::Open);
    assert_eq!(denied.found.failure_count(), 0);
    // 18 ms less one nanosecond are left.
    assert_eq!(denied.found.remaining_ms(denied.now, 30), 17);
    assert_eq!(denied.found.remaining_ms(5 + 30 * MILLI, 30), 0);
    plugin.evaluate_pre_inner(&ctx, 5 + 30 * MILLI);
    let second = plugin.evaluate_pre_inner(&ctx, 5 + 30 * MILLI);
    assert_eq!(second.found.status(), CircuitStatus::HalfOpen);
    assert_eq!(second.found.half_open_inflight(), 1);
    assert!(second.decision.is_allow());
}

#[test]
fn success_after_a_failure_clears_the_count() {
    let mut state = CircuitState::new(0);
    assert_eq!(state.record(true, 1, 3), None);
    assert_eq!(state.failure_count(), 1);
    assert_eq!(state.record(false, 2, 3), None);
    assert_eq!(state.failure_count(), 0);
}

#[test]
fn earlier_clock_counts_as_no_time() {
    let mut plugin = CircuitBreakerPlugin::new(config(1, 1, 1));
    let ctx = test_ctx("t");
    plugin.evaluate_post_inner(&ctx, &failure_result(), 5_000_000);
    assert!(plugin.evaluate_pre_inner(&ctx, 0).rejected);
}

#[test]
fn probes_are_bounded() {
    let mut plugin = CircuitBreakerPlugin::new(config(1, 1, 3));
    let ctx = test_ctx("t");
    plugin.evaluate_post_inner(&ctx, &failure_result(), 0);
    let mut passed = 0;
    for i in 0..10 {
        if plugin.evaluate_pre_inner(&ctx, MILLI + i).decision.is_allow() {
            passed += 1;
        }
    }
    assert_eq!(passed, 3);
    assert_eq!(status(&mut plugin, "t"), CircuitStatus::HalfOpen);
    let closed = plugin.evaluate_post_inner(&ctx, &success_result(), 2 * MILLI);
    assert_eq!(
        closed.transition,
        Some(Transition {
            from: CircuitStatus::HalfOpen,
            to: CircuitStatus::Closed
        })
    );
    assert!(plugin.evaluate_pre_inner(&ctx, 2 * MILLI).decision.is_allow());
}

#[test]
fn failed_probe_restarts_cooldown() {
    let mut plugin = CircuitBreakerPlugin::new(config(1, 10, 1));
    let ctx = test_ctx("t");
    plugin.evaluate_post_inner(&ctx, &failure_result(), 0);
    assert!(plugin.evaluate_pre_inner(&ctx, 10 * MILLI).decision.is_allow());
    let reopened = plugin.evaluate_post_inner(&ctx, &failure_result(), 15 * MILLI);
    assert_eq!(
        reopened.transition,
        Some(Transition {
            from: CircuitStatus::HalfOpen,
            to: CircuitStatus::Open
        })
    );
    assert!(plugin.evaluate_pre_inner(&ctx, 25 * MILLI - 1).rejected);
    assert!(plugin.evaluate_pre_inner(&ctx, 25 * MILLI).decision.is_allow());
}

#[test]
fn late_results_are_ignored() {
    let mut plugin = CircuitBreakerPlugin::new(config(1, 10, 1));
    let ctx = test_ctx("t");
    plugin.evaluate_post_inner(&ctx, &failure_result(), 0);
    let late = plugin.evaluate_post_inner(&ctx, &success_result(), 1);
    assert!(late.decision.is_allow());
    assert_eq!(late.transition, None);
    assert_eq!(status(&mut plugin, "t"), CircuitStatus::Open);
    // The cooldown still runs from the trip.
    plugin.evaluate_post_inner(&ctx, &failure_result(), 9 * MILLI);
    assert!(plugin.evaluate_pre_inner(&ctx, 10 * MILLI).decision.is_allow());
}

#[test]
fn zero_threshold_trips_on_first_failure() {
    let mut plugin = CircuitBreakerPlugin::new(config(0, 10, 1));
    let ctx = test_ctx("t");
    plugin.evaluate_post_inner(&ctx, &success_result(), 0);
    assert_eq!(status(&mut plugin, "t"), CircuitStatus::Closed);
    plugin.evaluate_post_inner(&ctx, &failure_result(), 0);
    assert_eq!(status(&mut plugin, "t"), CircuitStatus::Open);
}

#[test]
fn without_probes_open_is_final() {
    let mut plugin = CircuitBreakerPlugin::new(config(1, 0, 0));
    let ctx = test_ctx("t");
    plugin.evaluate_post_inner(&ctx, &failure_result(), 0);
    let denied = plugin.evaluate_pre_inner(&ctx, u128::MAX);
    assert!(!denied.decision.is_allow());
    assert!(!denied.rejected);
    assert_eq!(status(&mut plugin, "t"), CircuitStatus::Open);
}

#[test]
fn isolated_failures_never_trip() {
    let mut plugin = CircuitBreakerPlugin::new(config(2, 10, 1));
    let ctx = test_ctx("t");
    for i in 0..20 {
        assert!(plugin.evaluate_pre_inner(&ctx, i).decision.is_allow());
        let result = if i % 2 == 0 {
            failure_result()
        } else {
            success_result()
        };
        plugin.evaluate_post_inner(&ctx, &result, i);
    }
    assert_eq!(status(&mut plugin, "t"), CircuitStatus::Closed);
}

#[test]
fn runs_are_counted_among_other_events() {
    let mut plugin = CircuitBreakerPlugin::new(config(3, 10, 1));
    let (a, b) = (test_ctx("a"), test_ctx("b"));
    // Requests overlap, and the other tool succeeds in between.
    for i in 0..3 {
        assert!(plugin.evaluate_pre_inner(&a, i).decision.is_allow());
    }
    for i in 3..5 {
        plugin.evaluate_post_inner(&a, &failure_result(), i);
        plugin.evaluate_post_inner(&b, &success_result(), i);
        assert!(plugin.evaluate_pre_inner(&a, i).decision.is_allow());
    }
    let tripped = plugin.evaluate_post_inner(&a, &failure_result(), 5);
    assert_eq!(tripped.found.failure_count(), 2);
    assert_eq!(status(&mut plugin, "a"), CircuitStatus::Open);
    assert_eq!(status(&mut plugin, "b"), CircuitStatus::Closed);
    assert!(plugin.evaluate_pre_inner(&a, 6).rejected);
}

#[test]
fn probes_are_bounded_among_other_events() {
    let mut plugin = CircuitBreakerPlugin::new(config(1, 1, 2));
    let (a, b) = (test_ctx("a"), test_ctx("b"));
    plugin.evaluate_post_inner(&a, &failure_result(), 0);
    let mut passed = 0;
    for i in 0..6 {
        if plugin.evaluate_pre_inner(&a, MILLI + i).decision.is_allow() {
            passed += 1;
        }
        plugin.evaluate_pre_inner(&b, MILLI + i);
        plugin.evaluate_post_inner(&b, &failure_result(), MILLI + i);
    }
    assert_eq!(passed, 2);
}

#[test]
fn tools_are_independent() {
    let mut plugin = CircuitBreakerPlugin::new(config(1, 10, 1));
    plugin.evaluate_post_inner(&test_ctx("a"), &failure_result(), 0);
    assert!(!plugin.evaluate_pre_inner(&test_ctx("a"), 1).decision.is_allow());
    assert!(plugin.evaluate_pre_inner(&test_ctx("b"), 1).decision.is_allow());
    assert!(plugin.evaluate_pre_inner(&test_ctx("A"), 1).decision.is_allow());
    assert_eq!(status(&mut plugin, "a"), CircuitStatus::Open);
    assert_eq!(status(&mut plugin, "b"), CircuitStatus::Closed);
}

#[test]
fn tools_commute() {
    let mut first = CircuitBreakerPlugin::new(config(1, 10, 1));
    let mut second = CircuitBreakerPlugin::new(config(1, 10, 1));
    let (a, b) = (test_ctx("a"), test_ctx("b"));
    first.evaluate_post_inner(&a, &failure_result(), 3);
    assert!(first.evaluate_pre_inner(&b, 4).decision.is_allow());
    assert!(second.evaluate_pre_inner(&b, 4).decision.is_allow());
    second.evaluate_post_inner(&a, &failure_result(), 3);
    for tool in ["a", "b"] {
        assert_eq!(status(&mut first, tool), status(&mut second, tool));
    }
    first.evaluate_post_inner(&a, &success_result(), 5);
    first.evaluate_post_inner(&b, &success_result(), 6);
    second.evaluate_post_inner(&b, &success_result(), 6);
    second.evaluate_post_inner(&a, &success_result(), 5);
    for plugin in [&mut first, &mut second] {
        assert!(plugin.evaluate_pre_inner(&a, 3 + 10 * MILLI - 1).rejected);
        assert!(plugin.evaluate_pre_inner(&a, 3 + 10 * MILLI).decision.is_allow());
    }
}

#[test]
fn denied_requests_leave_no_trace() {
    let mut plugin = CircuitBreakerPlugin::new(config(1, 10, 1));
    let ctx = test_ctx("t");
    plugin.evaluate_post_inner(&ctx, &failure_result(), 0);
    for i in 0..10 {
        assert!(plugin.evaluate_pre_inner(&ctx, i * MILLI).rejected);
    }
    // Neither the end of the cooldown nor the room for a probe has moved.
    assert!(plugin.evaluate_pre_inner(&ctx, 10 * MILLI).decision.is_allow());
}

#[test]
fn fewer_failures_than_the_threshold_keep_the_circuit_closed() {
    let mut plugin = CircuitBreakerPlugin::new(config(4, 10, 1));
    let ctx = test_ctx("t");
    for i in 0..4 {
        assert_eq!(status(&mut plugin, "t"), CircuitStatus::Closed);
        plugin.evaluate_pre_inner(&ctx, i);
        plugin.evaluate_post_inner(&ctx, &failure_result(), i);
    }
    assert_eq!(status(&mut plugin, "t"), CircuitStatus::Open);
}

#[test]
fn first_override_decides() {
    let plugin = CircuitBreakerPlugin::new(CircuitBreakerConfig {
        per_tool: vec![
            ToolOverride {
                tool: "t".to_owned(),
                failure_threshold: None,
                cooldown_ms: Some(1),
            },
            ToolOverride {
                tool: "t".to_owned(),
                failure_threshold: Some(9),
                cooldown_ms: Some(2),
            },
        ],
        ..Default::default()
    });
    assert_eq!(plugin.failure_threshold_for("t"), 5);
    assert_eq!(plugin.cooldown_for("t"), 1);
    assert_eq!(plugin.failure_threshold_for("T"), 5);
    assert_eq!(plugin.cooldown_for("T"), 30_000);
}

#[test]
fn status_codes_have_no_say() {
    let mut plugin = CircuitBreakerPlugin::new(CircuitBreakerConfig {
        failure_status_codes: vec![],
        ..config(1, 10, 1)
    });
    let ctx = test_ctx("t");
    plugin.evaluate_post_inner(&ctx, &failure_result(), 0);
    assert!(plugin.evaluate_pre_inner(&ctx, 1).rejected);
}

#[test]
fn failures_are_told_by_the_result() {
    let plugin = CircuitBreakerPlugin::new(CircuitBreakerConfig::default());
    assert!(plugin.is_failure_result(&failure_result()));
    assert!(!plugin.is_failure_result(&success_result()));
    assert!(plugin.is_failure_result(&content_result("error", "x", false)));
    assert!(!plugin.is_failure_result(&JsonValue::Null));
    assert!(!plugin.is_failure_result(&JsonValue::Number("1".to_owned())));
    // The flag has to be the boolean itself.
    assert!(!plugin.is_failure_result(&JsonValue::Object(vec![(
        "isError".to_owned(),
        text("true")
    )])));
    // The content has to be an array.
    assert!(!plugin.is_failure_result(&JsonValue::Object(vec![(
        "content".to_owned(),
        JsonValue::Object(vec![("type".to_owned(), text("error"))])
    )])));
    // Any item will do.
    assert!(plugin.is_failure_result(&JsonValue::Object(vec![(
        "content".to_owned(),
        JsonValue::Array(vec![
            JsonValue::Null,
            JsonValue::Object(vec![("type".to_owned(), text("text"))]),
            JsonValue::Object(vec![("type".to_owned(), text("error"))]),
        ])
    )])));
}

#[test]
fn statuses_have_names() {
    assert_eq!(CircuitStatus::Closed.to_string(), "closed");
    assert_eq!(CircuitStatus::Open.to_string(), "open");
    assert_eq!(CircuitStatus::HalfOpen.to_string(), "half_open");
}

#[test]
fn manifest_describes_the_plugin() {
    let plugin = CircuitBreakerPlugin::new(CircuitBreakerConfig::default());
    let manifest = plugin.manifest();
    assert_eq!(manifest.id, "dev.mcpg.circuit-breaker");
    assert_eq!(manifest.name, "Circuit Breaker");
    assert_eq!(manifest.protocol_version, "1.0");
    assert_eq!(
        manifest.module_path_prefix,
        "mcpg_plugin_reliability_circuit_breaker"
    );
    assert!(manifest.required_capabilities.is_empty());
}
