//! The configuration of the gateway.

use vstd::prelude::*;

verus! {

/// How the gateway reaches one provider.
pub struct ProviderConfig {
    pub name: String,
    pub base_url: String,
    pub api_key: String,
    pub models: Vec<String>,
    /// Whether the gateway uses the provider at all.
    pub enabled: bool,
}

/// A provider and the model to ask it for.
pub struct VirtualModelTarget {
    pub provider: String,
    pub model: String,
}

/// A model that the gateway offers, with the targets that serve it, in the order of their
/// priority.
pub struct VirtualModelConfig {
    pub name: String,
    pub targets: Vec<VirtualModelTarget>,
}

/// Whether no two of these models have the same name.
pub open spec fn are_distinct(models: Seq<VirtualModelConfig>) -> bool {
    forall|i: int, j: int|
        0 <= i < j < models.len() ==> #[trigger] models[i].name@ != #[trigger] models[j].name@
}

/// How the gateway listens, and what it reports to.
pub struct ServerConfig {
    pub host: String,
    pub port: u16,
    pub bind_family: String,
    pub upstream_timeout_secs: u64,
    pub otel_endpoint: String,
}

/// The whole configuration.
pub struct Config {
    pub server: ServerConfig,
    pub providers: Vec<ProviderConfig>,
    pub virtual_models: Vec<VirtualModelConfig>,
}

impl Config {
    /// Whether the name of a virtual model leads to one list of targets only.
    pub open spec fn is_well_formed(self) -> bool {
        are_distinct(self.virtual_models@)
    }
}

} // verus!
