use std::time::Duration;

use freyja::error::{ProviderError, TransportError};
use freyja::json::Json;
use freyja::model::{
    GenerateRequest, GenerateResponse, InputContent, Message, OutputContent, ReasoningEffort,
    ResponseFormat, ResponseStatus, Role, ToolChoice, ToolDefinition,
};

#[test]
fn new_request_sets_no_capability_defaults() {
    let request = GenerateRequest::new();

    assert!(request.tool_choice.is_none());
    assert!(request.reasoning_effort.is_none());
    assert!(request.response_format.is_none());
    assert_eq!(request, GenerateRequest::default());
}

fn tool_turn() -> GenerateResponse {
    GenerateResponse {
        id: "resp_1".to_string(),
        model: "test".to_string(),
        status: ResponseStatus::RequiresAction,
        content: vec![
            OutputContent::Text("thinking".to_string()),
            OutputContent::ToolCall {
                id: "call_1".to_string(),
                name: "add".to_string(),
                arguments: "{\"a\":1,\"b\":2}".to_string(),
            },
        ],
        usage: None,
        provider_metadata: None,
    }
}

#[test]
fn response_converts_into_an_assistant_turn() {
    let response = tool_turn();

    assert!(response.has_tool_calls());
    assert_eq!(response.tool_calls(), vec![("call_1", "add", "{\"a\":1,\"b\":2}")]);

    let message = response.to_message();
    assert_eq!(message.role, Role::Assistant);
    assert_eq!(message.content[0], InputContent::Text("thinking".to_string()));
    assert_eq!(
        message.content[1],
        InputContent::ToolCall {
            id: "call_1".to_string(),
            name: "add".to_string(),
            arguments: "{\"a\":1,\"b\":2}".to_string(),
        }
    );
}

#[test]
fn output_text_joins_every_text_part_and_skips_the_rest() {
    let mut response = tool_turn();
    response.content.push(OutputContent::Refusal("no".to_string()));
    response.content.push(OutputContent::Text(" done".to_string()));

    assert_eq!(response.output_text(), "thinking done");
    assert_eq!(response.tool_calls().len(), 1);
    // A refusal is replayed as the text it was.
    let message = response.to_message();
    assert_eq!(message.content.len(), 4);
    assert_eq!(message.content[2], InputContent::Text("no".to_string()));
}

#[test]
fn a_response_without_calls_reports_none() {
    let mut response = tool_turn();
    response.content.remove(1);

    assert!(!response.has_tool_calls());
    assert!(response.tool_calls().is_empty());
}

#[test]
fn tool_result_builds_a_tool_turn() {
    let message = Message::tool_result("call_1", "3");

    assert_eq!(message.role, Role::Tool);
    assert_eq!(
        message.content,
        vec![InputContent::ToolResult { call_id: "call_1".to_string(), output: "3".to_string() }]
    );
}

#[test]
fn error_stream_displays_provider_and_message() {
    let error = ProviderError::Stream { provider: "acme".to_string(), message: "boom".to_string() };

    assert_eq!(error.to_string(), "acme stream failed: boom");
}

fn classify(status: u16, body: &str) -> ProviderError {
    ProviderError::from_status("acme".to_string(), status, None, body.to_string())
}

#[test]
fn from_status_names_the_statuses_it_recognises() {
    assert!(matches!(classify(400, "{}"), ProviderError::BadRequest { .. }));
    assert!(matches!(classify(401, "{}"), ProviderError::Unauthorized { status: 401, .. }));
    assert!(matches!(classify(403, "{}"), ProviderError::Unauthorized { status: 403, .. }));
    assert!(matches!(classify(404, "{}"), ProviderError::NotFound { .. }));
    assert!(matches!(classify(429, "{}"), ProviderError::RateLimit { .. }));
    assert!(matches!(classify(503, "{}"), ProviderError::ServerError { status: 503, .. }));
}

#[test]
fn from_status_treats_every_5xx_as_a_server_error() {
    let error = classify(529, "overloaded_error");

    assert!(matches!(error, ProviderError::ServerError { status: 529, .. }));
    assert!(error.is_retryable());
}

#[test]
fn from_status_falls_back_rather_than_guessing() {
    let error = classify(418, "teapot");

    assert!(matches!(error, ProviderError::Api { status: 418, .. }));
    assert_eq!(error.status(), Some(418));
    assert!(!error.is_retryable());
}

#[test]
fn an_exhausted_quota_is_not_a_rate_limit() {
    let throttled = classify(429, r#"{"error":{"code":"rate_limit_exceeded"}}"#);
    let exhausted = classify(429, r#"{"error":{"code":"insufficient_quota"}}"#);

    assert!(matches!(throttled, ProviderError::RateLimit { .. }));
    assert!(throttled.is_retryable());

    assert!(matches!(exhausted, ProviderError::QuotaExceeded { status: 429, .. }));
    assert!(!exhausted.is_retryable());
}

#[test]
fn retry_after_survives_onto_the_rate_limit() {
    let error = ProviderError::from_status(
        "acme".to_string(),
        429,
        Some(Duration::from_secs(30)),
        "slow down".to_string(),
    );

    assert_eq!(error.retry_after(), Some(Duration::from_secs(30)));
    assert_eq!(error.to_string(), "acme rate limited the request, retry after 30s: slow down");
}

#[test]
fn only_a_rate_limit_carries_a_retry_delay() {
    assert_eq!(classify(503, "{}").retry_after(), None);
    assert_eq!(classify(429, "{}").retry_after(), None);
}

#[test]
fn transport_failures_split_on_whether_waiting_helps() {
    let retryable = [TransportError::Timeout, TransportError::Body];
    let permanent = [TransportError::Connect, TransportError::Other];

    for kind in retryable {
        let error = ProviderError::Http { provider: "acme".to_string(), kind, message: "x".to_string() };
        assert!(error.is_retryable(), "{kind:?} should be retryable");
        assert_eq!(error.status(), None, "no status was ever received");
    }

    for kind in permanent {
        let error = ProviderError::Http { provider: "acme".to_string(), kind, message: "x".to_string() };
        assert!(!error.is_retryable(), "{kind:?} should not be retryable");
    }
}

#[test]
fn refusals_raised_before_the_network_are_never_retryable() {
    let unsupported = ProviderError::UnsupportedCapability {
        provider: "acme".to_string(),
        capability: "tool_choice",
    };
    let invalid = ProviderError::InvalidRequest {
        provider: "acme".to_string(),
        message: "no messages".to_string(),
    };

    assert!(!unsupported.is_retryable());
    assert!(!invalid.is_retryable());
    assert_eq!(unsupported.status(), None);
    assert_eq!(invalid.status(), None);
}

#[test]
fn every_error_names_the_endpoint_that_produced_it() {
    let errors = [
        classify(400, "{}"),
        classify(401, "{}"),
        classify(404, "{}"),
        classify(429, "{}"),
        classify(429, "insufficient_quota"),
        classify(500, "{}"),
        classify(418, "{}"),
        ProviderError::Http {
            provider: "acme".to_string(),
            kind: TransportError::Timeout,
            message: "x".to_string(),
        },
        ProviderError::UnsupportedCapability {
            provider: "acme".to_string(),
            capability: "reasoning_effort",
        },
        ProviderError::InvalidRequest { provider: "acme".to_string(), message: "x".to_string() },
        ProviderError::InvalidResponse { provider: "acme".to_string(), message: "x".to_string() },
        ProviderError::Stream { provider: "acme".to_string(), message: "x".to_string() },
    ];

    for error in &errors {
        assert_eq!(error.provider(), "acme", "{error:?}");
    }
}

#[test]
fn named_errors_display_their_cause_and_endpoint() {
    assert_eq!(classify(400, "bad json").to_string(), "acme rejected the request: bad json");
    assert_eq!(classify(401, "no key").to_string(), "acme refused the credential (HTTP 401): no key");
    assert_eq!(classify(404, "no model").to_string(), "acme has no such model or endpoint: no model");
    assert_eq!(classify(500, "oops").to_string(), "acme failed with HTTP 500: oops");
    assert_eq!(
        ProviderError::Http {
            provider: "acme".to_string(),
            kind: TransportError::Timeout,
            message: "operation timed out".to_string(),
        }
        .to_string(),
        "acme timed out: operation timed out"
    );
}

#[test]
fn every_remaining_error_displays_its_cause() {
    assert_eq!(
        classify(429, "insufficient_quota").to_string(),
        "acme quota exhausted (HTTP 429): insufficient_quota"
    );
    assert_eq!(classify(418, "teapot").to_string(), "acme returned HTTP 418: teapot");
    assert_eq!(classify(429, "slow").to_string(), "acme rate limited the request: slow");
    assert_eq!(
        ProviderError::InvalidResponse { provider: "acme".to_string(), message: "x".to_string() }
            .to_string(),
        "invalid acme response: x"
    );
}

#[test]
fn a_transport_failure_is_classified_from_the_clients_flags() {
    assert_eq!(TransportError::classify(true, false, false), TransportError::Timeout);
    assert_eq!(TransportError::classify(false, true, false), TransportError::Connect);
    assert_eq!(TransportError::classify(false, false, true), TransportError::Body);
    assert_eq!(TransportError::classify(false, false, false), TransportError::Other);

    let error = ProviderError::transport("acme", false, true, false, "refused");
    assert_eq!(error.to_string(), "acme could not be reached: refused");
    assert!(!error.is_retryable());
}

#[test]
fn builders_set_exactly_their_field() {
    let tool = ToolDefinition::new("add", "Adds two numbers")
        .parameters(Json::parse(r#"{"type":"object"}"#).unwrap())
        .strict(true);
    let request = GenerateRequest::new()
        .model("m")
        .messages(vec![Message::text(Role::User, "a")])
        .extend_messages(vec![Message::text(Role::User, "b")])
        .message(Message::text(Role::User, "c"))
        .max_tokens(10)
        .temperature(0.5f32.to_bits())
        .top_p(1.0f32.to_bits())
        .tools(vec![tool.clone()])
        .tool_choice(ToolChoice::Named("add".to_string()))
        .reasoning_effort(ReasoningEffort::Low)
        .response_format(ResponseFormat::Text)
        .previous_response_id("prev")
        .metadata(Json::parse(r#"{"k":"v"}"#).unwrap());

    assert_eq!(request.model.as_deref(), Some("m"));
    assert_eq!(
        request.messages,
        vec![Message::text(Role::User, "a"), Message::text(Role::User, "b"), Message::text(Role::User, "c")]
    );
    assert_eq!(request.max_tokens, Some(10));
    assert_eq!(request.temperature.map(f32::from_bits), Some(0.5));
    assert_eq!(request.top_p.map(f32::from_bits), Some(1.0));
    assert_eq!(request.tools, vec![tool]);
    assert_eq!(request.tools[0].description.as_deref(), Some("Adds two numbers"));
    assert_eq!(request.tools[0].strict, Some(true));
    assert_eq!(request.tool_choice, Some(ToolChoice::Named("add".to_string())));
    assert_eq!(request.reasoning_effort, Some(ReasoningEffort::Low));
    assert_eq!(request.response_format, Some(ResponseFormat::Text));
    assert_eq!(request.previous_response_id.as_deref(), Some("prev"));
    assert_eq!(request.metadata.as_ref().map(|m| m.text().to_string()), Some("{\"k\":\"v\"}".to_string()));

    // `messages` replaces what was there.
    let replaced = request.messages(vec![Message::text(Role::User, "z")]);
    assert_eq!(replaced.messages, vec![Message::text(Role::User, "z")]);
}
