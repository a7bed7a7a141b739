//! How the plugin introduces itself to the gateway.

use vstd::prelude::*;

verus! {

/// Identifier of the plugin.
pub const PLUGIN_ID: &'static str = "dev.mcpg.circuit-breaker";

/// Version of the plugin.
pub const PLUGIN_VERSION: &'static str = "0.1.0";

/// Name of the crate, under which the plugin's modules are found.
pub const MODULE_PATH_PREFIX: &'static str = "mcpg_plugin_reliability_circuit_breaker";

/// What a plugin is for.
#[derive(Clone, Copy, Debug, PartialEq, Eq, Structural)]
pub enum PluginClass {
    /// Decides before each tool call whether it may go on.
    ToolGate,
}

/// What a plugin tells of itself.
#[derive(Clone, Debug)]
pub struct PluginManifest {
    pub id: String,
    pub version: String,
    pub name: String,
    pub plugin_class: PluginClass,
    pub protocol_version: String,
    pub license: Option<String>,
    pub required_capabilities: Vec<String>,
    pub tags: Vec<String>,
    pub provides: Vec<String>,
    pub provides_schemes: Vec<String>,
    pub module_path_prefix: String,
    pub backend_profile: Option<String>,
}

impl PluginManifest {
    /// Whether this is the manifest of the circuit breaker, which asks for no capability.
    pub open spec fn describes_circuit_breaker(self) -> bool {
        &&& self.id@ == PLUGIN_ID@
        &&& self.version@ == PLUGIN_VERSION@
        &&& self.name@ == "Circuit Breaker"@
        &&& self.plugin_class is ToolGate
        &&& self.protocol_version@ == "1.0"@
        &&& self.license is None
        &&& self.required_capabilities@.len() == 0
        &&& self.tags@.len() == 0
        &&& self.provides@.len() == 0
        &&& self.provides_schemes@.len() == 0
        &&& self.module_path_prefix@ == MODULE_PATH_PREFIX@
        &&& self.backend_profile is None
    }

    /// The manifest of the circuit breaker.
    pub fn circuit_breaker() -> (manifest: Self)
        ensures
            manifest.describes_circuit_breaker(),
    {
        PluginManifest {
            id: PLUGIN_ID.to_owned(),
            version: PLUGIN_VERSION.to_owned(),
            name: "Circuit Breaker".to_owned(),
            plugin_class: PluginClass::ToolGate,
            protocol_version: "1.0".to_owned(),
            license: None,
            required_capabilities: Vec::new(),
            tags: Vec::new(),
            provides: Vec::new(),
            provides_schemes: Vec::new(),
            module_path_prefix: MODULE_PATH_PREFIX.to_owned(),
            backend_profile: None,
        }
    }
}

} // verus!
