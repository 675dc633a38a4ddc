use freyja::config::{Auth, ProviderConfig, ProviderDialect};
use freyja::error::ProviderError;
use freyja::json::Json;
use freyja::model::{GenerateRequest, InputContent, Message, ReasoningEffort, ResponseFormat, Role};
use freyja::provider::{check, stream_request};
use freyja::transport::parse_delay_seconds;

#[test]
fn custom_builds_an_endpoint_freya_does_not_ship() {
    let config = ProviderConfig::new(
        ProviderDialect::OpenAiChat,
        "my-gateway",
        "https://gateway.internal/v1",
    );

    assert_eq!(config.dialect, ProviderDialect::OpenAiChat);
    assert_eq!(config.name.as_str(), "my-gateway");
    assert_eq!(config.url(), "https://gateway.internal/v1/chat/completions");
    // Auth follows the dialect unless overridden.
    assert_eq!(config.auth, Auth::Bearer);
}

#[test]
fn joins_base_url_and_dialect_path() {
    let config = ProviderConfig::new(ProviderDialect::Anthropic, "test", "https://x.test/v1");
    assert_eq!(config.url(), "https://x.test/v1/messages");

    let trailing = ProviderConfig::new(ProviderDialect::OpenAiResponses, "test", "https://x.test/v1/");
    assert_eq!(trailing.url(), "https://x.test/v1/responses");
}

#[test]
fn takes_the_dialects_auth_style_by_default() {
    let anthropic = ProviderConfig::new(ProviderDialect::Anthropic, "a", "https://x.test");
    assert_eq!(anthropic.auth, Auth::Header("x-api-key"));

    let overridden = anthropic.auth(Auth::Bearer);
    assert_eq!(overridden.auth, Auth::Bearer);
}

#[test]
fn resolves_the_model_from_request_then_endpoint() {
    let config = ProviderConfig::new(ProviderDialect::Anthropic, "a", "https://x.test")
        .default_model("endpoint-default");

    let empty = GenerateRequest::new();
    assert_eq!(config.model_for(&empty).unwrap(), "endpoint-default");

    let explicit = GenerateRequest::new().model("caller-choice");
    assert_eq!(config.model_for(&explicit).unwrap(), "caller-choice");
}

#[test]
fn refuses_a_request_with_no_model_anywhere() {
    let config = ProviderConfig::new(ProviderDialect::Anthropic, "a", "https://x.test");

    assert!(matches!(
        config.model_for(&GenerateRequest::new()),
        Err(ProviderError::InvalidRequest { .. })
    ));
}

#[test]
fn stream_url_appends_alt_sse_for_gemini() {
    let gemini = ProviderConfig::new(ProviderDialect::Gemini, "g", "https://x.test/v1");
    assert_eq!(gemini.url(), "https://x.test/v1/interactions");
    assert_eq!(
        gemini.stream_url(),
        "https://x.test/v1/interactions?alt=sse",
        "Gemini selects SSE by query parameter, not by body field alone"
    );

    // Every other dialect streams from the same URL it generates from.
    let anthropic = ProviderConfig::new(ProviderDialect::Anthropic, "a", "https://x.test/v1");
    assert_eq!(anthropic.stream_url(), anthropic.url());
}

const DIALECTS: [ProviderDialect; 4] = [
    ProviderDialect::OpenAiResponses,
    ProviderDialect::OpenAiChat,
    ProviderDialect::Gemini,
    ProviderDialect::Anthropic,
];

/// An endpoint that could never be reached, which is the point: a check must
/// not need a reachable endpoint or a real key.
fn offline(dialect: ProviderDialect) -> ProviderConfig {
    ProviderConfig::new(dialect, "test", "http://127.0.0.1:1/v1")
}

fn ask() -> GenerateRequest {
    GenerateRequest::new().model("m").message(Message::text(Role::User, "Hi"))
}

fn refusal(dialect: ProviderDialect, request: &GenerateRequest) -> &'static str {
    match check(&offline(dialect), request) {
        Err(ProviderError::UnsupportedCapability { capability, .. }) => capability,
        other => panic!("{dialect:?}: expected a refusal, got {other:?}"),
    }
}

#[test]
fn check_accepts_what_every_dialect_can_carry() {
    for dialect in DIALECTS {
        assert!(
            check(&offline(dialect), &ask()).is_ok(),
            "{dialect:?} should carry a plain text request"
        );
    }
}

#[test]
fn check_reports_a_field_the_dialect_cannot_express() {
    assert_eq!(
        refusal(ProviderDialect::Anthropic, &ask().previous_response_id("resp_1")),
        "server-side conversation continuation"
    );
    assert_eq!(
        refusal(ProviderDialect::OpenAiChat, &ask().previous_response_id("chatcmpl-1")),
        "server-side conversation continuation"
    );
}

#[test]
fn check_reports_a_value_the_dialect_cannot_express() {
    let anthropic = offline(ProviderDialect::Anthropic);

    assert!(check(
        &anthropic,
        &ask().response_format(ResponseFormat::JsonSchema {
            name: "s".to_string(),
            schema: Json::parse(r#"{"type": "object"}"#).unwrap(),
            strict: true,
        })
    )
    .is_ok());
    assert_eq!(
        refusal(ProviderDialect::Anthropic, &ask().response_format(ResponseFormat::JsonObject)),
        "schema-less JSON response format"
    );

    let gemini = offline(ProviderDialect::Gemini);

    assert!(check(&gemini, &ask().reasoning_effort(ReasoningEffort::High)).is_ok());
    assert_eq!(
        refusal(ProviderDialect::Gemini, &ask().reasoning_effort(ReasoningEffort::Max)),
        "reasoning effort 'max'"
    );
}

#[test]
fn check_reports_a_placement_no_table_could_describe() {
    let misplaced = GenerateRequest::new()
        .model("m")
        .message(Message::new(
            Role::Assistant,
            vec![InputContent::ImageUrl("https://e.test/a.png".to_string())],
        ))
        .message(Message::text(Role::User, "What is this?"));

    for dialect in [ProviderDialect::OpenAiResponses, ProviderDialect::Anthropic] {
        assert_eq!(refusal(dialect, &misplaced), "images outside user messages", "{dialect:?}");
    }

    for dialect in [ProviderDialect::OpenAiChat, ProviderDialect::Gemini] {
        assert!(check(&offline(dialect), &misplaced).is_ok(), "{dialect:?} carries this");
    }

    let placed = GenerateRequest::new().model("m").message(Message::new(
        Role::User,
        vec![
            InputContent::ImageUrl("https://e.test/a.png".to_string()),
            InputContent::Text("What is this?".to_string()),
        ],
    ));

    for dialect in DIALECTS {
        assert!(check(&offline(dialect), &placed).is_ok(), "{dialect:?}");
    }
}

#[test]
fn check_catches_everything_decidable_before_the_network() {
    let no_model = GenerateRequest::new().message(Message::text(Role::User, "Hi"));

    for dialect in DIALECTS {
        assert!(
            matches!(check(&offline(dialect), &no_model), Err(ProviderError::InvalidRequest { .. })),
            "{dialect:?}"
        );
    }
}

#[test]
fn check_agrees_with_the_path_it_stands_in_for() {
    let refused = ask().response_format(ResponseFormat::JsonObject);
    let config = offline(ProviderDialect::Anthropic);

    let from_check = check(&config, &refused).expect_err("check refuses");
    let from_stream = match stream_request(&config, &refused) {
        Ok(_) => panic!("a refused request must not open a stream"),
        Err(error) => error,
    };

    assert_eq!(from_check.to_string(), from_stream.to_string());
}

#[test]
fn retry_after_reads_the_delay_seconds_form() {
    assert_eq!(parse_delay_seconds("30"), Some(30));
    assert_eq!(parse_delay_seconds(" 5 "), Some(5));
}

#[test]
fn an_unusable_retry_after_leaves_the_caller_in_charge() {
    assert_eq!(parse_delay_seconds("Wed, 21 Oct 2015 07:28:00 GMT"), None);
    assert_eq!(parse_delay_seconds("soon"), None);
    assert_eq!(parse_delay_seconds("-1"), None);
}
