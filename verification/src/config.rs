//! Wire dialects and endpoints.
//!
//! A dialect is how a request is serialized; an endpoint is where it is sent.
//! Keeping them apart is what lets one dialect serve many vendors.

use vstd::prelude::*;
use crate::error::ProviderError;
use crate::model::{GenerateRequest, RequestView};
use crate::text::trim_end;

verus! {

/// A wire format: the shape of the JSON, not the vendor serving it.
#[derive(Debug, Clone, Copy, PartialEq, Eq, Structural)]
pub enum ProviderDialect {
    /// OpenAI's Responses API, a flat item list with `previous_response_id`.
    OpenAiResponses,
    /// OpenAI's Chat Completions API, the format the compatible ecosystem speaks.
    OpenAiChat,
    /// Google Gemini's Interactions API, a flat step list.
    Gemini,
    /// Anthropic's Messages API, content blocks nested inside messages.
    Anthropic,
}

/// How an endpoint expects credentials to be presented.
#[derive(Debug, Clone, Copy, PartialEq, Eq)]
pub enum Auth {
    /// `Authorization: Bearer <key>`.
    Bearer,
    /// A named header carrying the raw key, such as `x-api-key`.
    Header(&'static str),
    /// No credentials at all, for local runtimes.
    Keyless,
}

/// Which field carries the output token cap on a Chat Completions endpoint.
#[derive(Debug, Clone, Copy, PartialEq, Eq, Structural)]
#[non_exhaustive]
pub enum TokenLimitField {
    /// `max_tokens`. The older field, and the default.
    MaxTokens,
    /// `max_completion_tokens`. Required by newer OpenAI models.
    MaxCompletionTokens,
}

/// The path a dialect appends to an endpoint's base URL.
pub open spec fn dialect_path(d: ProviderDialect) -> Seq<char> {
    match d {
        ProviderDialect::OpenAiResponses => "/responses"@,
        ProviderDialect::OpenAiChat => "/chat/completions"@,
        ProviderDialect::Gemini => "/interactions"@,
        ProviderDialect::Anthropic => "/messages"@,
    }
}

/// The header name a dialect's own auth style uses, when it uses a named one.
pub open spec fn default_auth_header(d: ProviderDialect) -> Option<Seq<char>> {
    match d {
        ProviderDialect::OpenAiResponses | ProviderDialect::OpenAiChat => None,
        ProviderDialect::Gemini => Some("x-goog-api-key"@),
        ProviderDialect::Anthropic => Some("x-api-key"@),
    }
}

/// The headers a dialect requires, whoever serves it.
pub open spec fn dialect_headers(d: ProviderDialect) -> Seq<(Seq<char>, Seq<char>)> {
    match d {
        ProviderDialect::OpenAiResponses | ProviderDialect::OpenAiChat => Seq::empty(),
        ProviderDialect::Gemini => seq![("Api-Revision"@, "2026-05-20"@)],
        ProviderDialect::Anthropic => seq![("anthropic-version"@, "2023-06-01"@)],
    }
}

impl ProviderDialect {
    /// The path appended to the endpoint's base URL.
    pub fn path(self) -> (r: &'static str)
        ensures
            r@ == dialect_path(self),
    {
        match self {
            ProviderDialect::OpenAiResponses => "/responses",
            ProviderDialect::OpenAiChat => "/chat/completions",
            ProviderDialect::Gemini => "/interactions",
            ProviderDialect::Anthropic => "/messages",
        }
    }

    /// How this format conventionally carries credentials.
    pub fn default_auth(self) -> (r: Auth)
        ensures
            match default_auth_header(self) {
                Some(name) => r matches Auth::Header(h) && h@ == name,
                None => r is Bearer,
            },
    {
        match self {
            ProviderDialect::OpenAiResponses | ProviderDialect::OpenAiChat => Auth::Bearer,
            ProviderDialect::Gemini => Auth::Header("x-goog-api-key"),
            ProviderDialect::Anthropic => Auth::Header("x-api-key"),
        }
    }

    /// Headers the format requires regardless of which vendor serves it.
    pub fn required_headers(self) -> (r: Vec<(&'static str, &'static str)>)
        ensures
            r@.map_values(|h: (&'static str, &'static str)| (h.0@, h.1@)) == dialect_headers(self),
    {
        let mut out: Vec<(&'static str, &'static str)> = Vec::new();
        match self {
            ProviderDialect::OpenAiResponses | ProviderDialect::OpenAiChat => {}
            ProviderDialect::Gemini => out.push(("Api-Revision", "2026-05-20")),
            ProviderDialect::Anthropic => out.push(("anthropic-version", "2023-06-01")),
        }
        assert(out@.map_values(|h: (&'static str, &'static str)| (h.0@, h.1@)) =~= dialect_headers(self));
        out
    }

    /// The query string that selects server-sent events, for dialects that
    /// need one. Only Gemini does.
    pub fn stream_query(self) -> (r: Option<&'static str>)
        ensures
            self == ProviderDialect::Gemini ==> (r matches Some(q) && q@ == "alt=sse"@),
            self != ProviderDialect::Gemini ==> r is None,
    {
        match self {
            ProviderDialect::Gemini => Some("alt=sse"),
            _ => None,
        }
    }
}

/// An endpoint: where to send a request, how to authenticate, and what to
/// default when the caller does not say.
#[derive(Debug, Clone)]
pub struct ProviderConfig {
    /// Which wire format this endpoint speaks.
    pub dialect: ProviderDialect,
    /// Display name, used for error attribution.
    pub name: String,
    /// Root URL; the dialect's path is appended to it.
    pub base_url: String,
    /// How to present credentials.
    pub auth: Auth,
    /// Environment variable holding the key.
    pub api_key_env: Option<&'static str>,
    /// Model used when the request names none.
    pub default_model: Option<String>,
    /// Extra headers, for gateways that want attribution or routing hints.
    pub extra_headers: Vec<(String, String)>,
    /// Which field carries the token cap on a Chat Completions endpoint.
    pub token_limit_field: TokenLimitField,
}

/// The URL requests to this endpoint go to: the base URL without trailing
/// slashes, then the dialect's path.
pub open spec fn endpoint_url(c: ProviderConfig) -> Seq<char> {
    trim_end(c.base_url@, '/') + dialect_path(c.dialect)
}

/// The URL streaming requests go to.
pub open spec fn endpoint_stream_url(c: ProviderConfig) -> Seq<char> {
    if c.dialect == ProviderDialect::Gemini {
        endpoint_url(c) + "?alt=sse"@
    } else {
        endpoint_url(c)
    }
}

/// The model a request resolves to: its own, else the endpoint's default.
pub open spec fn resolved_model(c: ProviderConfig, r: RequestView) -> Option<Seq<char>> {
    match r.model {
        Some(m) => Some(m),
        None => match c.default_model {
            Some(m) => Some(m@),
            None => None,
        },
    }
}

/// The message raised when no model is set anywhere.
pub open spec fn no_model_message() -> Seq<char> {
    "no model set on the request and no default_model on the endpoint"@
}

impl ProviderConfig {
    /// Creates a config with the dialect's conventional auth style.
    pub fn new(dialect: ProviderDialect, name: &str, base_url: &str) -> (r: Self)
        ensures
            r.dialect == dialect,
            r.name@ == name@,
            r.base_url@ == base_url@,
            match default_auth_header(dialect) {
                Some(h) => r.auth matches Auth::Header(x) && x@ == h,
                None => r.auth is Bearer,
            },
            r.api_key_env is None,
            r.default_model is None,
            r.extra_headers@.len() == 0,
            r.token_limit_field == TokenLimitField::MaxTokens,
    {
        ProviderConfig {
            dialect,
            name: crate::text::owned(name),
            base_url: crate::text::owned(base_url),
            auth: dialect.default_auth(),
            api_key_env: None,
            default_model: None,
            extra_headers: Vec::new(),
            token_limit_field: TokenLimitField::MaxTokens,
        }
    }

    /// Overrides how credentials are presented.
    pub fn auth(self, auth: Auth) -> (r: Self)
        ensures
            r == (ProviderConfig { auth, ..self }),
    {
        ProviderConfig { auth, ..self }
    }

    /// Names the environment variable holding the key.
    pub fn api_key_env(self, variable: &'static str) -> (r: Self)
        ensures
            r == (ProviderConfig { api_key_env: Some(variable), ..self }),
    {
        ProviderConfig { api_key_env: Some(variable), ..self }
    }

    /// Sets the model used when a request does not name one.
    pub fn default_model(self, model: &str) -> (r: Self)
        ensures
            r.default_model matches Some(m) && m@ == model@,
            r == (ProviderConfig { default_model: r.default_model, ..self }),
    {
        ProviderConfig { default_model: Some(crate::text::owned(model)), ..self }
    }

    /// Adds an extra header sent with every request.
    pub fn header(self, name: &str, value: &str) -> (r: Self)
        ensures
            r.extra_headers@.len() == self.extra_headers@.len() + 1,
            r.extra_headers@.drop_last() == self.extra_headers@,
            r.extra_headers@.last().0@ == name@,
            r.extra_headers@.last().1@ == value@,
            r == (ProviderConfig { extra_headers: r.extra_headers, ..self }),
    {
        let mut this = self;
        this.extra_headers.push((crate::text::owned(name), crate::text::owned(value)));
        assert(this.extra_headers@.drop_last() =~= self.extra_headers@);
        this
    }

    /// Chooses which field carries the output token cap.
    pub fn token_limit_field(self, field: TokenLimitField) -> (r: Self)
        ensures
            r == (ProviderConfig { token_limit_field: field, ..self }),
    {
        ProviderConfig { token_limit_field: field, ..self }
    }

    /// The full URL requests are sent to.
    pub fn url(&self) -> (r: String)
        ensures
            r@ == endpoint_url(*self),
    {
        let mut out = crate::text::trim_end_char(self.base_url.as_str(), '/');
        out.append(self.dialect.path());
        out
    }

    /// The full URL streaming requests are sent to.
    pub fn stream_url(&self) -> (r: String)
        ensures
            r@ == endpoint_stream_url(*self),
    {
        match self.dialect.stream_query() {
            Some(query) => {
                let mut out = self.url();
                out.append("?");
                out.append(query);
                proof {
                    reveal_strlit("?");
                    reveal_strlit("alt=sse");
                    reveal_strlit("?alt=sse");
                    assert("?"@ + "alt=sse"@ =~= "?alt=sse"@);
                }
                out
            }
            None => self.url(),
        }
    }

    /// Resolves the model for a request, preferring the request's own choice.
    pub fn model_for(&self, request: &GenerateRequest) -> (r: Result<String, ProviderError>)
        ensures
            match resolved_model(*self, request@) {
                Some(m) => r matches Ok(s) && s@ == m,
                None => r matches Err(ProviderError::InvalidRequest { provider, message })
                    && provider == self.name && message@ == no_model_message(),
            },
    {
        match &request.model {
            Some(model) => Ok(model.clone()),
            None => match &self.default_model {
                Some(model) => Ok(model.clone()),
                None => Err(ProviderError::InvalidRequest {
                    provider: self.name.clone(),
                    message: crate::text::owned("no model set on the request and no default_model on the endpoint"),
                }),
            },
        }
    }
}

/// A trailing slash on the base URL changes nothing: the endpoint is the
/// same with or without it.
pub proof fn law_a_trailing_slash_changes_nothing(c: ProviderConfig, d: ProviderConfig)
    requires
        d.dialect == c.dialect,
        d.base_url@ == c.base_url@.push('/'),
    ensures
        endpoint_url(d) == endpoint_url(c),
        endpoint_stream_url(d) == endpoint_stream_url(c),
{
    assert(d.base_url@.drop_last() == c.base_url@);
}

/// Only Gemini streams from a URL of its own, selecting the stream by query
/// parameter; every other dialect streams from the URL it generates from.
pub proof fn law_only_gemini_streams_elsewhere(c: ProviderConfig)
    ensures
        (endpoint_stream_url(c) == endpoint_url(c)) <==> c.dialect != ProviderDialect::Gemini,
{
    if c.dialect == ProviderDialect::Gemini {
        assert(endpoint_stream_url(c).len() > endpoint_url(c).len()) by {
            reveal_strlit("?alt=sse");
        }
    }
}

} // verus!
