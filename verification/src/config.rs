//! Deployment-level wiring configuration: server binding, enabled packs,
//! provider preferences, auth settings. Wiring only, no business semantics.

use vstd::prelude::*;

verus! {

/// Per-provider configuration override.
#[derive(Debug, Clone)]
pub struct ProviderOverride {
    /// Override of the default model.
    pub model: Option<String>,
    /// Rate limit in requests per minute.
    pub rate_limit: Option<u32>,
    /// Timeout in milliseconds.
    pub timeout_ms: Option<u64>,
}

/// Provider selection configuration.
#[derive(Debug, Clone)]
pub struct ProviderConfig {
    /// Preferred providers, in order.
    pub prefer: Vec<String>,
    /// Providers to exclude.
    pub exclude: Vec<String>,
    /// Per-provider overrides.
    pub overrides: std::collections::HashMap<String, ProviderOverride>,
}

impl Default for ProviderConfig {
    fn default() -> (d: Self)
        ensures
            d.prefer@.len() == 0,
            d.exclude@.len() == 0,
    {
        ProviderConfig {
            prefer: Vec::new(),
            exclude: Vec::new(),
            overrides: std::collections::HashMap::new(),
        }
    }
}

/// Auth provider kinds.
#[derive(Debug, Clone, Copy, PartialEq, Eq, Structural)]
pub enum AuthProvider {
    /// No authentication.
    NoAuth,
    /// API-key authentication.
    ApiKey,
    /// JWT / OAuth.
    Jwt,
}

/// Authentication configuration.
#[derive(Debug, Clone)]
pub struct AuthConfig {
    /// Whether auth is enabled.
    pub enabled: bool,
    /// Which auth provider to use.
    pub provider: AuthProvider,
}

impl Default for AuthConfig {
    fn default() -> (d: Self)
        ensures
            d.enabled == false,
            d.provider == AuthProvider::NoAuth,
    {
        AuthConfig { enabled: false, provider: AuthProvider::NoAuth }
    }
}

/// Application configuration.
#[derive(Debug, Clone)]
pub struct AppConfig {
    /// Host to bind to.
    pub host: String,
    /// Port to bind to.
    pub port: u16,
    /// Enabled domain packs.
    pub enabled_packs: Vec<String>,
    /// Provider configuration.
    pub providers: ProviderConfig,
    /// Auth configuration.
    pub auth: AuthConfig,
}

impl Default for AppConfig {
    fn default() -> (d: Self)
        ensures
            d.host@ == "0.0.0.0"@,
            d.port == 8080,
            d.enabled_packs.deep_view() =~= seq!["growth-strategy"@],
            d.providers.prefer@.len() == 0,
            d.providers.exclude@.len() == 0,
            d.auth.enabled == false,
            d.auth.provider == AuthProvider::NoAuth,
    {
        let mut enabled_packs: Vec<String> = Vec::new();
        enabled_packs.push("growth-strategy".to_owned());
        AppConfig {
            host: "0.0.0.0".to_owned(),
            port: 8080,
            enabled_packs,
            providers: ProviderConfig::default(),
            auth: AuthConfig::default(),
        }
    }
}

} // verus!
