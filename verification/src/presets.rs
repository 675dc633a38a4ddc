//! Endpoints the library ships knowledge of.
//!
//! A preset is nothing but a `ProviderConfig` with the URL, auth style, key
//! variable and default model filled in.

use vstd::prelude::*;
use crate::config::{ProviderConfig, ProviderDialect, TokenLimitField, Auth, default_auth_header};

verus! {

/// A known endpoint.
#[derive(Debug, Clone, Copy, PartialEq, Eq, Structural)]
pub enum ProviderType {
    /// OpenAI, via the Responses API.
    OpenAi,
    /// Google Gemini, via the Interactions API.
    Gemini,
    /// Anthropic, via the Messages API.
    Anthropic,
}

/// The conventional environment variable holding a preset's key.
pub open spec fn preset_key_env(p: ProviderType) -> Seq<char> {
    match p {
        ProviderType::OpenAi => "OPENAI_API_KEY"@,
        ProviderType::Gemini => "GEMINI_API_KEY"@,
        ProviderType::Anthropic => "ANTHROPIC_API_KEY"@,
    }
}

/// The dialect a preset speaks.
pub open spec fn preset_dialect(p: ProviderType) -> ProviderDialect {
    match p {
        ProviderType::OpenAi => ProviderDialect::OpenAiResponses,
        ProviderType::Gemini => ProviderDialect::Gemini,
        ProviderType::Anthropic => ProviderDialect::Anthropic,
    }
}

/// A preset's display name.
pub open spec fn preset_name(p: ProviderType) -> Seq<char> {
    match p {
        ProviderType::OpenAi => "OpenAI"@,
        ProviderType::Gemini => "Gemini"@,
        ProviderType::Anthropic => "Anthropic"@,
    }
}

/// A preset's base URL.
pub open spec fn preset_base_url(p: ProviderType) -> Seq<char> {
    match p {
        ProviderType::OpenAi => "https://api.openai.com/v1"@,
        ProviderType::Gemini => "https://generativelanguage.googleapis.com/v1beta"@,
        ProviderType::Anthropic => "https://api.anthropic.com/v1"@,
    }
}

/// A preset's default model.
pub open spec fn preset_model(p: ProviderType) -> Seq<char> {
    match p {
        ProviderType::OpenAi => "gpt-5.6-sol"@,
        ProviderType::Gemini => "gemini-3.5-flash"@,
        ProviderType::Anthropic => "opus-5"@,
    }
}

/// Whether `c` is the full endpoint description of preset `p`.
pub open spec fn is_preset_config(p: ProviderType, c: ProviderConfig) -> bool {
    &&& c.dialect == preset_dialect(p)
    &&& c.name@ == preset_name(p)
    &&& c.base_url@ == preset_base_url(p)
    &&& match default_auth_header(c.dialect) {
        Some(h) => c.auth matches Auth::Header(x) && x@ == h,
        None => c.auth is Bearer,
    }
    &&& c.api_key_env matches Some(v) && v@ == preset_key_env(p)
    &&& c.default_model matches Some(m) && m@ == preset_model(p)
    &&& c.extra_headers@.len() == 0
    &&& c.token_limit_field == TokenLimitField::MaxTokens
}

impl ProviderType {
    /// The conventional environment variable holding this endpoint's API key.
    pub fn api_key_env(self) -> (r: &'static str)
        ensures
            r@ == preset_key_env(self),
    {
        match self {
            ProviderType::OpenAi => "OPENAI_API_KEY",
            ProviderType::Gemini => "GEMINI_API_KEY",
            ProviderType::Anthropic => "ANTHROPIC_API_KEY",
        }
    }

    /// The wire format this endpoint speaks.
    pub fn dialect(self) -> (r: ProviderDialect)
        ensures
            r == preset_dialect(self),
    {
        match self {
            ProviderType::OpenAi => ProviderDialect::OpenAiResponses,
            ProviderType::Gemini => ProviderDialect::Gemini,
            ProviderType::Anthropic => ProviderDialect::Anthropic,
        }
    }

    /// The full endpoint description.
    pub fn config(self) -> (r: ProviderConfig)
        ensures
            is_preset_config(self, r),
    {
        let base = match self {
            ProviderType::OpenAi => ProviderConfig::new(
                ProviderDialect::OpenAiResponses,
                "OpenAI",
                "https://api.openai.com/v1",
            ).default_model("gpt-5.6-sol"),
            ProviderType::Gemini => ProviderConfig::new(
                ProviderDialect::Gemini,
                "Gemini",
                "https://generativelanguage.googleapis.com/v1beta",
            ).default_model("gemini-3.5-flash"),
            ProviderType::Anthropic => ProviderConfig::new(
                ProviderDialect::Anthropic,
                "Anthropic",
                "https://api.anthropic.com/v1",
            ).default_model("opus-5"),
        };
        base.api_key_env(self.api_key_env())
    }
}

impl From<ProviderType> for ProviderConfig {
    fn from(value: ProviderType) -> (r: ProviderConfig)
        ensures
            is_preset_config(value, r),
    {
        value.config()
    }
}

/// The conversion is specified by the contract of `from` itself; no spec
/// function stands for it.
impl vstd::std_specs::convert::FromSpecImpl<ProviderType> for ProviderConfig {
    open spec fn obeys_from_spec() -> bool {
        false
    }

    open spec fn from_spec(v: ProviderType) -> ProviderConfig {
        arbitrary()
    }
}

} // verus!
