# Circuit breaker

Per-tool circuit breaker for the MCPG gateway, verified with Verus. It counts consecutive failed
tool results; once a tool reaches its failure threshold, calls to it are denied with HTTP 503
until a cooldown has passed and a probe has shown the backend to be healthy again.

## Layout

- `src/circuit.rs`: the three-state machine of one tool.
- `src/config.rs`: settings, defaults and per-tool overrides.
- `src/json.rs`: tool results, and which of them count as failures.
- `src/decision.rs`: allow, or the denial that an open circuit gives.
- `src/breaker.rs`: the mathematical state of the breaker as a whole.
- `src/plugin.rs`: the plugin: configuration, look-up, evaluation before and after a call.
- `src/laws.rs`: what holds over several calls.
- `src/store.rs`, `src/clock.rs`: the two places where code outside the proofs is trusted, the
  `dashmap` table of circuits and the system clock.
- `app/`: decoding of configuration blocks, metrics, logs, and registration with the gateway.

## Concurrency

Evaluations take the plugin by exclusive reference. Gateway threads take turns at it through a
lock, so the bound on concurrent probes is exact.

## Time

Circuits are timed in nanoseconds since the plugin was made. The functions whose names end in
`_inner` or `_at` take the time as an argument; the others read the clock.
