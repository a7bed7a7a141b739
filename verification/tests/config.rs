use mcpg_plugin_reliability_circuit_breaker::{
    default_cooldown_ms, default_failure_status_codes, default_failure_threshold,
    default_half_open_max_inflight, CircuitBreakerConfig, CircuitBreakerPlugin, ConfigFields,
    ToolOverride,
};
use serde::de::{Deserialize, Deserializer, Error, MapAccess, Visitor};
use serde_json::Value;

const BLOCK_FIELDS: &[&str] = &[
    "failure_threshold",
    "cooldown_ms",
    "half_open_max_inflight",
    "failure_status_codes",
    "per_tool",
];

const OVERRIDE_FIELDS: &[&str] = &["tool", "failure_threshold", "cooldown_ms"];

// The decoder below stands for the application's, `app/config.rs`, which has its own tests: it
// refuses what that one refuses of the blocks used here. What these tests are about is what the
// library makes of the outcome of decoding.

/// A configuration block, decoded strictly.
struct Block(ConfigFields);

struct BlockVisitor;

impl<'de> Visitor<'de> for BlockVisitor {
    type Value = Block;

    fn expecting(&self, f: &mut std::fmt::Formatter<'_>) -> std::fmt::Result {
        f.write_str("a configuration block")
    }

    fn visit_map<A: MapAccess<'de>>(self, mut map: A) -> Result<Block, A::Error> {
        let mut fields = no_fields();
        while let Some(key) = map.next_key::<String>()? {
            match key.as_str() {
                "failure_threshold" => fields.failure_threshold = Some(map.next_value()?),
                "cooldown_ms" => fields.cooldown_ms = Some(map.next_value()?),
                "half_open_max_inflight" => {
                    fields.half_open_max_inflight = Some(map.next_value()?)
                }
                "failure_status_codes" => fields.failure_status_codes = Some(map.next_value()?),
                "per_tool" => {
                    let overrides: Vec<OverrideBlock> = map.next_value()?;
                    fields.per_tool = Some(overrides.into_iter().map(|o| o.0).collect());
                }
                _ => return Err(Error::unknown_field(&key, BLOCK_FIELDS)),
            }
        }
        Ok(Block(fields))
    }
}

impl<'de> Deserialize<'de> for Block {
    fn deserialize<D: Deserializer<'de>>(deserializer: D) -> Result<Self, D::Error> {
        deserializer.deserialize_map(BlockVisitor)
    }
}

/// A per-tool entry, decoded strictly.
struct OverrideBlock(ToolOverride);

struct OverrideVisitor;

impl<'de> Visitor<'de> for OverrideVisitor {
    type Value = OverrideBlock;

    fn expecting(&self, f: &mut std::fmt::Formatter<'_>) -> std::fmt::Result {
        f.write_str("a per-tool entry")
    }

    fn visit_map<A: MapAccess<'de>>(self, mut map: A) -> Result<OverrideBlock, A::Error> {
        let mut tool: Option<String> = None;
        let mut failure_threshold: Option<u32> = None;
        let mut cooldown_ms: Option<u64> = None;
        while let Some(key) = map.next_key::<String>()? {
            match key.as_str() {
                "tool" => tool = Some(map.next_value()?),
                "failure_threshold" => failure_threshold = map.next_value()?,
                "cooldown_ms" => cooldown_ms = map.next_value()?,
                _ => return Err(Error::unknown_field(&key, OVERRIDE_FIELDS)),
            }
        }
        match tool {
            Some(tool) => Ok(OverrideBlock(ToolOverride {
                tool,
                failure_threshold,
                cooldown_ms,
            })),
            None => Err(Error::missing_field("tool")),
        }
    }
}

impl<'de> Deserialize<'de> for OverrideBlock {
    fn deserialize<D: Deserializer<'de>>(deserializer: D) -> Result<Self, D::Error> {
        deserializer.deserialize_map(OverrideVisitor)
    }
}

fn no_fields() -> ConfigFields {
    ConfigFields {
        failure_threshold: None,
        cooldown_ms: None,
        half_open_max_inflight: None,
        failure_status_codes: None,
        per_tool: None,
    }
}

fn from_text(config_json: &str) -> Result<CircuitBreakerPlugin, String> {
    let decoded = serde_json::from_str::<Block>(config_json)
        .map(|block| block.0)
        .map_err(|e| e.to_string());
    CircuitBreakerPlugin::from_config_json(config_json, decoded)
}

fn from_value(value: &Value) -> Result<CircuitBreakerPlugin, String> {
    let decoded = serde_json::from_value::<Block>(value.clone())
        .map(|block| block.0)
        .map_err(|e| e.to_string());
    CircuitBreakerPlugin::from_config(decoded)
}

fn expect(plugin: Result<CircuitBreakerPlugin, String>) -> CircuitBreakerPlugin {
    match plugin {
        Ok(plugin) => plugin,
        Err(message) => panic!("{}", message),
    }
}

fn object(members: Vec<(&str, Value)>) -> Value {
    let mut map = serde_json::Map::new();
    for (name, member) in members {
        map.insert(name.to_owned(), member);
    }
    Value::Object(map)
}

#[test]
fn empty_config_yields_defaults() {
    let plugin = expect(from_text("{}"));
    let defaults = CircuitBreakerConfig::default();
    assert_eq!(plugin.config().failure_threshold, defaults.failure_threshold);
    assert_eq!(plugin.config().cooldown_ms, defaults.cooldown_ms);
    assert_eq!(
        plugin.config().half_open_max_inflight,
        defaults.half_open_max_inflight
    );
    assert!(plugin.config().per_tool.is_empty());
}

#[test]
#[should_panic(expected = "failing closed")]
fn malformed_config_fails_closed() {
    let _ = expect(from_text("not json"));
}

#[test]
fn unknown_config_key_is_rejected() {
    let bad = object(vec![
        ("failure_threshold", Value::from(5)),
        ("failure_treshold", Value::from(7)), // typo
    ]);
    let err = from_value(&bad);
    assert!(err.is_err(), "unknown config key should be rejected");
}

#[test]
fn unknown_per_tool_key_is_rejected() {
    let bad = object(vec![(
        "per_tool",
        Value::Array(vec![object(vec![
            ("tool", Value::from("x")),
            ("failure_treshold", Value::from(1)), // typo
        ])]),
    )]);
    let err = from_value(&bad);
    assert!(err.is_err(), "unknown per-tool key should be rejected");
}

#[test]
fn absent_config_yields_defaults() {
    // An empty text cannot be decoded, but an absent block is not a malformed one.
    let plugin = expect(from_text(""));
    assert_eq!(plugin.config().failure_threshold, 5);
    assert_eq!(plugin.config().cooldown_ms, 30_000);
    assert_eq!(plugin.config().half_open_max_inflight, 1);
    assert_eq!(plugin.config().failure_status_codes.len(), 100);
    assert_eq!(plugin.config().failure_status_codes[0], 500);
    assert_eq!(plugin.config().failure_status_codes[99], 599);
    assert!(plugin.config().per_tool.is_empty());
}

#[test]
fn refused_text_names_the_reason() {
    let reason = match serde_json::from_str::<Block>("not json") {
        Ok(_) => panic!("decoded"),
        Err(e) => e.to_string(),
    };
    match from_text("not json") {
        Ok(_) => panic!("accepted"),
        Err(message) => assert_eq!(
            message,
            format!("malformed circuit breaker config, failing closed: {}", reason)
        ),
    }
}

#[test]
fn refused_value_names_the_reason() {
    match from_value(&object(vec![("tool", Value::Null)])) {
        Ok(_) => panic!("accepted"),
        Err(message) => {
            assert!(message.starts_with("invalid circuit breaker config: unknown field `tool`"))
        }
    }
}

#[test]
fn given_fields_win_over_defaults() {
    let plugin = expect(from_value(&object(vec![
        ("failure_threshold", Value::from(7)),
        (
            "per_tool",
            Value::Array(vec![object(vec![
                ("tool", Value::from("billing.charge")),
                ("failure_threshold", Value::from(2)),
                ("cooldown_ms", Value::from(60_000)),
            ])]),
        ),
    ])));
    assert_eq!(plugin.config().failure_threshold, 7);
    assert_eq!(plugin.config().cooldown_ms, 30_000);
    assert_eq!(plugin.failure_threshold_for("billing.charge"), 2);
    assert_eq!(plugin.cooldown_for("billing.charge"), 60_000);
    assert_eq!(plugin.failure_threshold_for("billing.refund"), 7);
    assert_eq!(plugin.cooldown_for("billing.refund"), 30_000);
}

#[test]
fn defaults_are_the_documented_ones() {
    assert_eq!(default_failure_threshold(), 5);
    assert_eq!(default_cooldown_ms(), 30_000);
    assert_eq!(default_half_open_max_inflight(), 1);
    let codes: Vec<u16> = (500..=599).collect();
    assert_eq!(default_failure_status_codes(), codes);
}
