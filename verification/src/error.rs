//! Everything that can go wrong on the way to a response, classified by cause.

use vstd::prelude::*;
use core::time::Duration;
use crate::text::{decimal, push_decimal, occurs_in, contains};

verus! {

/// Why a request never reached the endpoint.
///
/// Every variant describes a failure below HTTP semantics: no status was ever
/// received. What matters to a caller is whether trying again could help.
#[derive(Debug, Clone, Copy, PartialEq, Eq, Structural)]
#[non_exhaustive]
pub enum TransportError {
    /// No reply arrived within the inactivity timeout. Transient.
    Timeout,
    /// The connection could not be established at all.
    Connect,
    /// The connection died while the body was being read.
    Body,
    /// A transport failure the classification above does not cover.
    Other,
}

/// Whether repeating a request that failed this way could get further.
pub open spec fn transport_retryable(kind: TransportError) -> bool {
    kind == TransportError::Timeout || kind == TransportError::Body
}

/// The short description of a transport failure.
pub open spec fn transport_text(kind: TransportError) -> Seq<char> {
    match kind {
        TransportError::Timeout => "timed out"@,
        TransportError::Connect => "could not be reached"@,
        TransportError::Body => "dropped the connection"@,
        TransportError::Other => "transport failed"@,
    }
}

impl TransportError {
    /// The class of a failure with these properties.
    pub open spec fn classify_spec(is_timeout: bool, is_connect: bool, is_body: bool) -> TransportError {
        if is_timeout {
            TransportError::Timeout
        } else if is_connect {
            TransportError::Connect
        } else if is_body {
            TransportError::Body
        } else {
            TransportError::Other
        }
    }

    /// Classifies a transport failure from what the HTTP client reports about
    /// it: a timeout first, then a failed connection, then a broken body.
    pub fn classify(is_timeout: bool, is_connect: bool, is_body: bool) -> (r: Self)
        ensures
            r == TransportError::classify_spec(is_timeout, is_connect, is_body),
    {
        if is_timeout {
            TransportError::Timeout
        } else if is_connect {
            TransportError::Connect
        } else if is_body {
            TransportError::Body
        } else {
            TransportError::Other
        }
    }

    /// Whether repeating the request could plausibly get further.
    pub fn is_retryable(self) -> (r: bool)
        ensures
            r == transport_retryable(self),
    {
        match self {
            TransportError::Timeout | TransportError::Body => true,
            _ => false,
        }
    }

    /// A short description of the failure.
    pub fn as_str(self) -> (r: &'static str)
        ensures
            r@ == transport_text(self),
    {
        match self {
            TransportError::Timeout => "timed out",
            TransportError::Connect => "could not be reached",
            TransportError::Body => "dropped the connection",
            TransportError::Other => "transport failed",
        }
    }
}

/// The whole seconds of a duration.
pub uninterp spec fn secs_of(d: Duration) -> u64;

/// The whole seconds in `d`, by `Duration::as_secs`; the contract claims
/// the result is what `secs_of` names for `d`.
#[verifier::external_body]
fn whole_secs(d: &Duration) -> (r: u64)
    ensures
        r == secs_of(*d),
{
    d.as_secs()
}

/// Everything that can go wrong on the way to a response.
///
/// `provider` is the endpoint's configured name, so a failure against a
/// compatible gateway reports that gateway rather than the vendor it imitates.
#[derive(Debug, Clone, PartialEq, Eq)]
#[non_exhaustive]
pub enum ProviderError {
    /// The request asked for something this dialect cannot express.
    UnsupportedCapability {
        /// Endpoint that refused.
        provider: String,
        /// The capability it cannot express.
        capability: &'static str,
    },
    /// The request is malformed and was rejected before leaving the process.
    InvalidRequest {
        /// Endpoint whose mapping rejected the request.
        provider: String,
        /// What is wrong with it.
        message: String,
    },
    /// The HTTP request never completed, so no status was ever received.
    Http {
        /// Endpoint that could not be reached.
        provider: String,
        /// Why it could not be reached.
        kind: TransportError,
        /// The underlying transport message.
        message: String,
    },
    /// `400`: the endpoint rejected the request body.
    BadRequest {
        /// Endpoint that rejected it.
        provider: String,
        /// Raw response body.
        body: String,
    },
    /// `401` or `403`: the credential is missing, wrong, or not permitted.
    Unauthorized {
        /// Endpoint that refused.
        provider: String,
        /// The status, since `401` and `403` both land here.
        status: u16,
        /// Raw response body.
        body: String,
    },
    /// `404`: no such model, or the base URL is wrong.
    NotFound {
        /// Endpoint that answered.
        provider: String,
        /// Raw response body.
        body: String,
    },
    /// `429`: requests are arriving faster than the endpoint will serve them.
    RateLimit {
        /// Endpoint that throttled the request.
        provider: String,
        /// How long the endpoint asked the caller to wait, if it said.
        retry_after: Option<Duration>,
        /// Raw response body.
        body: String,
    },
    /// The account is out of credit or past a hard quota.
    QuotaExceeded {
        /// Endpoint that refused.
        provider: String,
        /// The status the endpoint used.
        status: u16,
        /// Raw response body.
        body: String,
    },
    /// `5xx`: the endpoint failed on its own side.
    ServerError {
        /// Endpoint that failed.
        provider: String,
        /// HTTP status code, including non-standard ones such as `529`.
        status: u16,
        /// Raw response body.
        body: String,
    },
    /// A non-success status no named variant claims.
    Api {
        /// Endpoint that answered.
        provider: String,
        /// HTTP status code.
        status: u16,
        /// Raw response body.
        body: String,
    },
    /// The provider answered successfully but the body could not be used.
    InvalidResponse {
        /// Endpoint that answered.
        provider: String,
        /// What was wrong with it.
        message: String,
    },
    /// The response streamed up to a point, then failed.
    Stream {
        /// Endpoint whose stream failed.
        provider: String,
        /// What went wrong.
        message: String,
    },
}

/// The marker OpenAI-shaped error bodies use for an exhausted quota.
pub const QUOTA_MARKER: &'static str = "insufficient_quota";

/// The narrowest variant a non-success status falls into.
pub open spec fn classify(provider: String, status: u16, retry_after: Option<Duration>, body: String) -> ProviderError {
    if status == 400 {
        ProviderError::BadRequest { provider, body }
    } else if status == 401 || status == 403 {
        ProviderError::Unauthorized { provider, status, body }
    } else if status == 404 {
        ProviderError::NotFound { provider, body }
    } else if status == 429 && occurs_in(body@, QUOTA_MARKER@) {
        ProviderError::QuotaExceeded { provider, status, body }
    } else if status == 429 {
        ProviderError::RateLimit { provider, retry_after, body }
    } else if 500 <= status <= 599 {
        ProviderError::ServerError { provider, status, body }
    } else {
        ProviderError::Api { provider, status, body }
    }
}

/// Whether repeating the identical request could plausibly succeed.
pub open spec fn retryable(e: ProviderError) -> bool {
    match e {
        ProviderError::Http { kind, .. } => transport_retryable(kind),
        ProviderError::RateLimit { .. } => true,
        ProviderError::ServerError { .. } => true,
        ProviderError::Api { status, .. } => status >= 500,
        _ => false,
    }
}

/// The HTTP status an error carries, for those that saw one.
pub open spec fn status_of(e: ProviderError) -> Option<u16> {
    match e {
        ProviderError::BadRequest { .. } => Some(400u16),
        ProviderError::NotFound { .. } => Some(404u16),
        ProviderError::RateLimit { .. } => Some(429u16),
        ProviderError::Unauthorized { status, .. } => Some(status),
        ProviderError::QuotaExceeded { status, .. } => Some(status),
        ProviderError::ServerError { status, .. } => Some(status),
        ProviderError::Api { status, .. } => Some(status),
        _ => None,
    }
}

/// The endpoint an error names.
pub open spec fn provider_of(e: ProviderError) -> String {
    match e {
        ProviderError::UnsupportedCapability { provider, .. } => provider,
        ProviderError::InvalidRequest { provider, .. } => provider,
        ProviderError::Http { provider, .. } => provider,
        ProviderError::BadRequest { provider, .. } => provider,
        ProviderError::Unauthorized { provider, .. } => provider,
        ProviderError::NotFound { provider, .. } => provider,
        ProviderError::RateLimit { provider, .. } => provider,
        ProviderError::QuotaExceeded { provider, .. } => provider,
        ProviderError::ServerError { provider, .. } => provider,
        ProviderError::Api { provider, .. } => provider,
        ProviderError::InvalidResponse { provider, .. } => provider,
        ProviderError::Stream { provider, .. } => provider,
    }
}

/// How an error reads: its cause and the endpoint that produced it.
pub open spec fn error_text(e: ProviderError) -> Seq<char> {
    match e {
        ProviderError::UnsupportedCapability { provider, capability } =>
            provider@ + " does not support "@ + capability@,
        ProviderError::InvalidRequest { provider, message } =>
            "invalid request for "@ + provider@ + ": "@ + message@,
        ProviderError::Http { provider, kind, message } =>
            provider@ + " "@ + transport_text(kind) + ": "@ + message@,
        ProviderError::BadRequest { provider, body } =>
            provider@ + " rejected the request: "@ + body@,
        ProviderError::Unauthorized { provider, status, body } =>
            provider@ + " refused the credential (HTTP "@ + decimal(status as nat) + "): "@ + body@,
        ProviderError::NotFound { provider, body } =>
            provider@ + " has no such model or endpoint: "@ + body@,
        ProviderError::RateLimit { provider, retry_after, body } => match retry_after {
            Some(wait) => provider@ + " rate limited the request, retry after "@
                + decimal(secs_of(wait) as nat) + "s: "@ + body@,
            None => provider@ + " rate limited the request: "@ + body@,
        },
        ProviderError::QuotaExceeded { provider, status, body } =>
            provider@ + " quota exhausted (HTTP "@ + decimal(status as nat) + "): "@ + body@,
        ProviderError::ServerError { provider, status, body } =>
            provider@ + " failed with HTTP "@ + decimal(status as nat) + ": "@ + body@,
        ProviderError::Api { provider, status, body } =>
            provider@ + " returned HTTP "@ + decimal(status as nat) + ": "@ + body@,
        ProviderError::InvalidResponse { provider, message } =>
            "invalid "@ + provider@ + " response: "@ + message@,
        ProviderError::Stream { provider, message } =>
            provider@ + " stream failed: "@ + message@,
    }
}

/// Joins three pieces.
fn join3(a: &str, b: &str, c: &str) -> (r: String)
    ensures
        r@ == a@ + b@ + c@,
{
    let mut out = crate::text::owned(a);
    out.append(b);
    out.append(c);
    out
}

/// Joins four pieces.
fn join4(a: &str, b: &str, c: &str, d: &str) -> (r: String)
    ensures
        r@ == a@ + b@ + c@ + d@,
{
    let mut out = join3(a, b, c);
    out.append(d);
    out
}

/// `a`, then the decimal form of `n`, then `b`, then `c`, after `prefix`.
fn with_number(prefix: &str, a: &str, n: u64, b: &str, c: &str) -> (r: String)
    ensures
        r@ == prefix@ + a@ + decimal(n as nat) + b@ + c@,
{
    let mut out = crate::text::owned(prefix);
    out.append(a);
    push_decimal(&mut out, n);
    out.append(b);
    out.append(c);
    out
}

impl ProviderError {
    /// A transport failure, classified from what the HTTP client reports.
    pub fn transport(provider: &str, is_timeout: bool, is_connect: bool, is_body: bool, message: &str) -> (r: Self)
        ensures
            r matches ProviderError::Http { provider: p, kind, message: m }
                && p@ == provider@ && m@ == message@
                && kind == TransportError::classify_spec(is_timeout, is_connect, is_body),
    {
        ProviderError::Http {
            provider: crate::text::owned(provider),
            kind: TransportError::classify(is_timeout, is_connect, is_body),
            message: crate::text::owned(message),
        }
    }

    /// Classifies a non-success response into the narrowest variant that fits.
    ///
    /// A status no named variant claims becomes `Api`. A `429` whose body
    /// carries the `insufficient_quota` marker is an exhausted quota, not a
    /// rate limit.
    pub fn from_status(provider: String, status: u16, retry_after: Option<Duration>, body: String) -> (r: Self)
        ensures
            r == classify(provider, status, retry_after, body),
    {
        if status == 400 {
            ProviderError::BadRequest { provider, body }
        } else if status == 401 || status == 403 {
            ProviderError::Unauthorized { provider, status, body }
        } else if status == 404 {
            ProviderError::NotFound { provider, body }
        } else if status == 429 && contains(body.as_str(), QUOTA_MARKER) {
            ProviderError::QuotaExceeded { provider, status, body }
        } else if status == 429 {
            ProviderError::RateLimit { provider, retry_after, body }
        } else if 500 <= status && status <= 599 {
            ProviderError::ServerError { provider, status, body }
        } else {
            ProviderError::Api { provider, status, body }
        }
    }

    /// Whether repeating the identical request could plausibly succeed.
    ///
    /// The library never retries; this reports what it knows so a caller's
    /// own loop does not have to rediscover it per vendor.
    pub fn is_retryable(&self) -> (r: bool)
        ensures
            r == retryable(*self),
    {
        match self {
            ProviderError::Http { kind, .. } => kind.is_retryable(),
            ProviderError::RateLimit { .. } | ProviderError::ServerError { .. } => true,
            ProviderError::Api { status, .. } => *status >= 500,
            _ => false,
        }
    }

    /// How long the endpoint asked the caller to wait, when it said so.
    pub fn retry_after(&self) -> (r: Option<Duration>)
        ensures
            r == (match *self {
                ProviderError::RateLimit { retry_after, .. } => retry_after,
                _ => None,
            }),
    {
        match self {
            ProviderError::RateLimit { retry_after, .. } => *retry_after,
            _ => None,
        }
    }

    /// The HTTP status, for the errors that have one.
    pub fn status(&self) -> (r: Option<u16>)
        ensures
            r == status_of(*self),
    {
        match self {
            ProviderError::BadRequest { .. } => Some(400),
            ProviderError::NotFound { .. } => Some(404),
            ProviderError::RateLimit { .. } => Some(429),
            ProviderError::Unauthorized { status, .. }
            | ProviderError::QuotaExceeded { status, .. }
            | ProviderError::ServerError { status, .. }
            | ProviderError::Api { status, .. } => Some(*status),
            _ => None,
        }
    }

    /// The endpoint's configured name. Every variant carries it.
    pub fn provider(&self) -> (r: &str)
        ensures
            r@ == provider_of(*self)@,
    {
        match self {
            ProviderError::UnsupportedCapability { provider, .. }
            | ProviderError::InvalidRequest { provider, .. }
            | ProviderError::Http { provider, .. }
            | ProviderError::BadRequest { provider, .. }
            | ProviderError::Unauthorized { provider, .. }
            | ProviderError::NotFound { provider, .. }
            | ProviderError::RateLimit { provider, .. }
            | ProviderError::QuotaExceeded { provider, .. }
            | ProviderError::ServerError { provider, .. }
            | ProviderError::Api { provider, .. }
            | ProviderError::InvalidResponse { provider, .. }
            | ProviderError::Stream { provider, .. } => provider.as_str(),
        }
    }

    /// How the error reads: its cause and the endpoint that produced it.
    pub fn to_string(&self) -> (r: String)
        ensures
            r@ == error_text(*self),
    {
        match self {
            ProviderError::UnsupportedCapability { provider, capability } =>
                join3(provider.as_str(), " does not support ", capability),
            ProviderError::InvalidRequest { provider, message } =>
                join4("invalid request for ", provider.as_str(), ": ", message.as_str()),
            ProviderError::Http { provider, kind, message } => {
                let mut out = join4(provider.as_str(), " ", kind.as_str(), ": ");
                out.append(message.as_str());
                out
            }
            ProviderError::BadRequest { provider, body } =>
                join3(provider.as_str(), " rejected the request: ", body.as_str()),
            ProviderError::Unauthorized { provider, status, body } =>
                with_number(provider.as_str(), " refused the credential (HTTP ", *status as u64, "): ", body.as_str()),
            ProviderError::NotFound { provider, body } =>
                join3(provider.as_str(), " has no such model or endpoint: ", body.as_str()),
            ProviderError::RateLimit { provider, retry_after, body } => match retry_after {
                Some(wait) => with_number(
                    provider.as_str(),
                    " rate limited the request, retry after ",
                    whole_secs(wait),
                    "s: ",
                    body.as_str(),
                ),
                None => join3(provider.as_str(), " rate limited the request: ", body.as_str()),
            },
            ProviderError::QuotaExceeded { provider, status, body } =>
                with_number(provider.as_str(), " quota exhausted (HTTP ", *status as u64, "): ", body.as_str()),
            ProviderError::ServerError { provider, status, body } =>
                with_number(provider.as_str(), " failed with HTTP ", *status as u64, ": ", body.as_str()),
            ProviderError::Api { provider, status, body } =>
                with_number(provider.as_str(), " returned HTTP ", *status as u64, ": ", body.as_str()),
            ProviderError::InvalidResponse { provider, message } =>
                join4("invalid ", provider.as_str(), " response: ", message.as_str()),
            ProviderError::Stream { provider, message } =>
                join3(provider.as_str(), " stream failed: ", message.as_str()),
        }
    }
}

/// The raw body an error carries, for those the endpoint answered.
pub open spec fn body_of(e: ProviderError) -> Option<String> {
    match e {
        ProviderError::BadRequest { body, .. } => Some(body),
        ProviderError::Unauthorized { body, .. } => Some(body),
        ProviderError::NotFound { body, .. } => Some(body),
        ProviderError::RateLimit { body, .. } => Some(body),
        ProviderError::QuotaExceeded { body, .. } => Some(body),
        ProviderError::ServerError { body, .. } => Some(body),
        ProviderError::Api { body, .. } => Some(body),
        _ => None,
    }
}

/// Classifying a response loses nothing the endpoint said: whichever variant
/// it lands in names the endpoint and carries the status and the raw body.
pub proof fn law_classification_keeps_what_the_endpoint_said(
    provider: String,
    status: u16,
    retry_after: Option<Duration>,
    body: String,
)
    ensures
        provider_of(classify(provider, status, retry_after, body)) == provider,
        status_of(classify(provider, status, retry_after, body)) == Some(status),
        body_of(classify(provider, status, retry_after, body)) == Some(body),
{
}

/// Every `5xx` is a server error, non-standard ones such as `529` included,
/// and a server error is worth retrying.
pub proof fn law_every_5xx_is_a_retryable_server_error(
    provider: String,
    status: u16,
    retry_after: Option<Duration>,
    body: String,
)
    requires
        500 <= status <= 599,
    ensures
        classify(provider, status, retry_after, body) is ServerError,
        retryable(classify(provider, status, retry_after, body)),
{
}

/// A `429` is a rate limit worth retrying, after the delay the endpoint
/// asked for, unless its body names an exhausted quota: that can never
/// succeed, so it is not retryable and carries no delay.
pub proof fn law_a_429_is_a_rate_limit_unless_the_quota_is_gone(
    provider: String,
    retry_after: Option<Duration>,
    body: String,
)
    ensures
        occurs_in(body@, QUOTA_MARKER@) ==> classify(provider, 429, retry_after, body) is QuotaExceeded
            && !retryable(classify(provider, 429, retry_after, body)),
        !occurs_in(body@, QUOTA_MARKER@) ==> classify(provider, 429, retry_after, body)
            == (ProviderError::RateLimit { provider, retry_after, body })
            && retryable(classify(provider, 429, retry_after, body)),
{
}

/// A request refused before it left the process is never worth repeating,
/// and saw no status.
pub proof fn law_refusals_before_the_network_are_final(e: ProviderError)
    requires
        e is UnsupportedCapability || e is InvalidRequest,
    ensures
        !retryable(e),
        status_of(e) is None,
{
}

/// A transport failure saw no status, and is worth retrying exactly when
/// waiting could help: a timeout or a dropped body, not a refused connection.
pub proof fn law_transport_failures_retry_when_waiting_helps(e: ProviderError)
    requires
        e is Http,
    ensures
        status_of(e) is None,
        retryable(e) == (e->Http_kind == TransportError::Timeout || e->Http_kind == TransportError::Body),
{
}

/// A failure reported as a timeout is a timeout, whatever else is reported
/// about it, and worth retrying; a failed connection is one only when it
/// did not time out, and a broken body only when neither happened. So the
/// class never names something the client did not report.
pub proof fn law_a_timeout_is_a_timeout(is_timeout: bool, is_connect: bool, is_body: bool)
    ensures
        (TransportError::classify_spec(is_timeout, is_connect, is_body) == TransportError::Timeout) == is_timeout,
        (TransportError::classify_spec(is_timeout, is_connect, is_body) == TransportError::Connect)
            == (!is_timeout && is_connect),
        (TransportError::classify_spec(is_timeout, is_connect, is_body) == TransportError::Body)
            == (!is_timeout && !is_connect && is_body),
        transport_retryable(TransportError::classify_spec(is_timeout, is_connect, is_body))
            == (is_timeout || (!is_connect && is_body)),
{
}

} // verus!
