use freyja::config::{ProviderConfig, ProviderDialect};
use freyja::error::ProviderError;
use freyja::json::Json;
use freyja::model::{GenerateRequest, Message, ReasoningEffort, ResponseFormat, Role, ToolChoice};
use freyja::provider::{check, stream_request, wire_request};
use freyja::refusal::{refusals, EFFORT_MINIMAL};
use freyja::sse::SseBuffer;
use freyja::stream::{Assembler, RawDelta, StreamEvent};

fn offline(dialect: ProviderDialect) -> ProviderConfig {
    ProviderConfig::new(dialect, "test", "http://127.0.0.1:1/v1")
}

fn ask() -> GenerateRequest {
    GenerateRequest::new().model("m").message(Message::text(Role::User, "Hi"))
}

fn refused_capability(dialect: ProviderDialect, request: &GenerateRequest) -> Option<&'static str> {
    match check(&offline(dialect), request) {
        Err(ProviderError::UnsupportedCapability { capability, .. }) => Some(capability),
        _ => None,
    }
}

#[test]
fn check_agrees_with_generate_and_stream() {
    let requests = [
        ask(),
        ask().previous_response_id("r"),
        ask().response_format(ResponseFormat::JsonObject),
        ask().reasoning_effort(ReasoningEffort::Max),
        ask().tool_choice(ToolChoice::Required),
        GenerateRequest::new().message(Message::text(Role::User, "no model")),
        ask().message(Message::text(Role::Tool, "42")),
    ];
    for dialect in [
        ProviderDialect::OpenAiResponses,
        ProviderDialect::OpenAiChat,
        ProviderDialect::Gemini,
        ProviderDialect::Anthropic,
    ] {
        let config = offline(dialect);
        for request in &requests {
            let checked = check(&config, request);
            let generated = wire_request(&config, request);
            let streamed = stream_request(&config, request);
            assert_eq!(checked.is_ok(), generated.is_ok(), "{dialect:?} {request:?}");
            assert_eq!(checked.is_ok(), streamed.is_ok(), "{dialect:?} {request:?}");
            if let (Err(a), Err(b), Err(c)) = (&checked, &generated, &streamed) {
                assert_eq!(a.to_string(), b.to_string());
                assert_eq!(a.to_string(), c.to_string());
            }
        }
    }
}

#[test]
fn every_refusal_raised_is_in_the_table_but_one() {
    let table = refusals();
    let recorded = |dialect: ProviderDialect, capability: &str| {
        table.iter().any(|row| row.dialect == dialect && row.capability == capability)
    };
    let cases = [
        (ProviderDialect::OpenAiChat, ask().previous_response_id("r")),
        (ProviderDialect::Anthropic, ask().previous_response_id("r")),
        (ProviderDialect::Anthropic, ask().response_format(ResponseFormat::JsonObject)),
        (ProviderDialect::Gemini, ask().reasoning_effort(ReasoningEffort::Off)),
        (ProviderDialect::Gemini, ask().tool_choice(ToolChoice::Auto)),
        (ProviderDialect::Gemini, ask().metadata(Json::parse("{}").unwrap())),
    ];
    for (dialect, request) in cases {
        let capability = refused_capability(dialect, &request).expect("refused");
        assert!(recorded(dialect, capability), "{dialect:?} {capability}");
    }

    // The one refusal no row names.
    let minimal = ask().reasoning_effort(ReasoningEffort::Minimal);
    assert_eq!(refused_capability(ProviderDialect::Anthropic, &minimal), Some(EFFORT_MINIMAL));
    assert!(!recorded(ProviderDialect::Anthropic, EFFORT_MINIMAL));
}

#[test]
fn the_text_streamed_is_the_text_the_response_holds() {
    let mut assembler = Assembler::new("acme", false);
    let mut events = Vec::new();
    for delta in [
        RawDelta::Text("Hel".to_string()),
        RawDelta::Text("lo".to_string()),
        RawDelta::TextEnd,
        RawDelta::Refusal("no".to_string()),
        RawDelta::Text(", world".to_string()),
        RawDelta::ToolStart { slot: 0, id: "c".to_string(), name: "f".to_string() },
    ] {
        assembler.absorb(delta, &mut events);
    }
    assembler.close(&mut events);

    let streamed: String = events
        .iter()
        .filter_map(|event| match event {
            StreamEvent::TextDelta(text) => Some(text.as_str()),
            _ => None,
        })
        .collect();
    let response = assembler.into_response().expect("closed");
    assert_eq!(streamed, "Hello, world");
    assert_eq!(response.output_text(), streamed);
    assert!(matches!(events.last(), Some(StreamEvent::Done { .. })));
    assert!(matches!(&events[events.len() - 2], StreamEvent::ToolCall { id, .. } if id == "c"));
}

#[test]
fn more_bytes_never_change_a_complete_frame() {
    let mut whole = SseBuffer::new();
    whole.push(b"data: one\n\n");
    let alone = whole.next_frame().expect("frame");

    let mut more = SseBuffer::new();
    more.push(b"data: one\n\n");
    more.push(b"\r\ndata: two\r\n\r\n");
    let with_more = more.next_frame().expect("frame");

    assert_eq!(alone, with_more);
}

#[test]
fn a_trailing_slash_changes_nothing() {
    for dialect in [ProviderDialect::Gemini, ProviderDialect::OpenAiChat] {
        let plain = ProviderConfig::new(dialect, "t", "https://x.test/v1");
        let slashed = ProviderConfig::new(dialect, "t", "https://x.test/v1/");
        assert_eq!(plain.url(), slashed.url());
        assert_eq!(plain.stream_url(), slashed.stream_url());
    }
}

#[test]
fn json_values_are_held_in_canonical_form() {
    let value = Json::parse("{ \"b\": [1, 2.5, \"x\"], \"a\": {\"z\": null, \"y\": true} }").expect("parses");
    assert_eq!(value.text(), "{\"a\":{\"y\":true,\"z\":null},\"b\":[1,2.5,\"x\"]}");
    assert!(Json::parse("{not json").is_none());
    assert_eq!(Json::parse("  42 ").expect("a number").text(), "42");
}

#[test]
fn conversion_errors_name_the_endpoint() {
    let gateway = ProviderConfig::new(ProviderDialect::Anthropic, "compatible-gateway", "https://gw.test/v1");
    for request in [
        ask().previous_response_id("r"),
        GenerateRequest::new().message(Message::text(Role::User, "no model")),
        ask().message(Message::new(
            Role::Assistant,
            vec![freyja::model::InputContent::ToolCall {
                id: "c".to_string(),
                name: "f".to_string(),
                arguments: "[1]".to_string(),
            }],
        )),
    ] {
        let error = check(&gateway, &request).expect_err("refused");
        assert_eq!(error.provider(), "compatible-gateway", "{error:?}");
    }
}
