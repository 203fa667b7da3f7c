//! The settings of a running service, and which assistant provider they
//! select.

use vstd::prelude::*;

verus! {

/// The settings of a running service.
#[derive(Clone, Debug, PartialEq, Eq)]
pub struct Config {
    pub database_url: String,
    pub jwt_secret: String,
    pub jwt_expiry_hours: i64,
    pub cors_origin: String,
    pub port: u16,
    pub mapbox_monthly_cap: i64,
    pub lemonsqueezy_webhook_secret: String,
    pub lemonsqueezy_api_key: String,
    pub perplexity_api_key: String,
    pub anthropic_api_key: String,
}

/// An assistant provider.
#[derive(Clone, Copy, Debug, PartialEq, Eq, Structural)]
pub enum Provider {
    Anthropic,
    Perplexity,
    /// No key is set: the assistant is switched off.
    Unconfigured,
}

/// The provider that the two keys select: the first one whose key is set.
pub open spec fn selected_provider(anthropic_key: Seq<char>, perplexity_key: Seq<char>) -> Provider {
    if anthropic_key.len() > 0 {
        Provider::Anthropic
    } else if perplexity_key.len() > 0 {
        Provider::Perplexity
    } else {
        Provider::Unconfigured
    }
}

/// The key that goes with [`selected_provider`]; empty where no provider
/// is selected.
pub open spec fn provider_key(anthropic_key: Seq<char>, perplexity_key: Seq<char>) -> Seq<char> {
    if anthropic_key.len() > 0 {
        anthropic_key
    } else if perplexity_key.len() > 0 {
        perplexity_key
    } else {
        Seq::empty()
    }
}

/// Which assistant provider to use, and with which key.
pub fn resolve_provider(config: &Config) -> (r: (Provider, &str))
    ensures
        r.0 == selected_provider(config.anthropic_api_key@, config.perplexity_api_key@),
        r.1@ == provider_key(config.anthropic_api_key@, config.perplexity_api_key@),
{
    if !config.anthropic_api_key.as_str().is_empty() {
        (Provider::Anthropic, config.anthropic_api_key.as_str())
    } else if !config.perplexity_api_key.as_str().is_empty() {
        (Provider::Perplexity, config.perplexity_api_key.as_str())
    } else {
        proof {
            reveal_strlit("");
        }
        (Provider::Unconfigured, "")
    }
}

} // verus!
