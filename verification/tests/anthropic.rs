use freyja::anthropic::{Decoder, Request, Response, ResponseUsage, DEFAULT_MAX_TOKENS};
use freyja::config::{ProviderConfig, ProviderDialect};
use freyja::error::ProviderError;
use freyja::events::{Next, StreamState};
use freyja::json::Json;
use freyja::model::{
    GenerateRequest, GenerateResponse, InputContent, Message, ReasoningEffort, ResponseFormat,
    ResponseStatus, Role, ToolChoice,
};
use freyja::presets::ProviderType;
use freyja::provider::StreamDecoder;
use freyja::sse::SseFrame;
use freyja::stream::RawDelta;
use serde_json::Value;

fn config() -> ProviderConfig {
    ProviderType::Anthropic.config()
}

fn value(j: &Json) -> Value {
    serde_json::from_str(j.text()).unwrap()
}

fn parsed(text: &str) -> Value {
    serde_json::from_str(text).unwrap()
}

fn json(text: &str) -> Json {
    Json::parse(text).unwrap()
}

fn messages(request: &Request) -> Vec<Value> {
    request.messages.iter().map(value).collect()
}

#[test]
fn maps_neutral_request_to_anthropic_wire_format() {
    let request = GenerateRequest::new()
        .message(Message::text(Role::System, "Be concise"))
        .message(Message::text(Role::User, "Hello"))
        .max_tokens(42);

    let built = Request::build(&request, &config()).unwrap();
    let messages = messages(&built);

    assert_eq!(built.model, "opus-5");
    assert_eq!(built.system.as_deref(), Some("Be concise"));
    assert_eq!(built.max_tokens, 42);
    assert_eq!(messages[0]["role"], "user");
    assert_eq!(messages[0]["content"][0]["type"], "text");
    assert_eq!(messages[0]["content"][0]["text"], "Hello");
}

#[test]
fn supplies_the_required_max_tokens_when_the_caller_does_not() {
    let request = GenerateRequest::new().message(Message::text(Role::User, "Hello"));

    let built = Request::build(&request, &config()).unwrap();

    assert_eq!(built.max_tokens, DEFAULT_MAX_TOKENS);
}

#[test]
fn anthropic_omits_capabilities_the_caller_did_not_ask_for() {
    let request = GenerateRequest::new().message(Message::text(Role::User, "Hello"));

    let built = Request::build(&request, &config()).unwrap();

    assert!(built.thinking.is_none());
    assert!(built.output_config.is_none());
    assert!(built.tools.is_empty());
    assert!(built.tool_choice.is_none());
    assert!(built.system.is_none());
}

#[test]
fn nests_a_full_tool_round_trip_inside_messages() {
    let request = GenerateRequest::new()
        .message(Message::text(Role::User, "What is 20 + 22?"))
        .message(Message::new(
            Role::Assistant,
            vec![
                InputContent::Text("Let me add those.".to_string()),
                InputContent::ToolCall {
                    id: "toolu_1".to_string(),
                    name: "add".to_string(),
                    arguments: "{\"a\":20,\"b\":22}".to_string(),
                },
            ],
        ))
        .message(Message::tool_result("toolu_1", "42"));

    let built = Request::build(&request, &config()).unwrap();
    let messages = messages(&built);

    assert_eq!(messages.len(), 3);
    assert_eq!(messages[1]["role"], "assistant");
    assert_eq!(messages[1]["content"][0]["type"], "text");
    assert_eq!(messages[1]["content"][1]["type"], "tool_use");
    assert_eq!(messages[1]["content"][1]["id"], "toolu_1");
    assert_eq!(messages[1]["content"][1]["input"]["a"], 20);

    assert_eq!(messages[2]["role"], "user");
    assert_eq!(messages[2]["content"][0]["type"], "tool_result");
    assert_eq!(messages[2]["content"][0]["tool_use_id"], "toolu_1");
    assert_eq!(messages[2]["content"][0]["content"], "42");
}

#[test]
fn preserves_thinking_blocks_in_place() {
    let signed = r#"{"type": "thinking", "thinking": "20 plus 22 is 42", "signature": "EvACCu0CARFNMg"}"#;

    let request = GenerateRequest::new()
        .message(Message::text(Role::User, "What is 20 + 22?"))
        .message(Message::new(
            Role::Assistant,
            vec![
                InputContent::Reasoning { data: json(signed) },
                InputContent::ToolCall {
                    id: "toolu_1".to_string(),
                    name: "add".to_string(),
                    arguments: "{\"a\":20,\"b\":22}".to_string(),
                },
            ],
        ));

    let built = Request::build(&request, &config()).unwrap();
    let messages = messages(&built);

    assert_eq!(messages[1]["content"][0], parsed(signed));
    assert_eq!(messages[1]["content"][1]["type"], "tool_use");
}

#[test]
fn maps_reasoning_effort_and_tool_choice() {
    let request = GenerateRequest::new()
        .message(Message::text(Role::User, "Hello"))
        .reasoning_effort(ReasoningEffort::Xhigh)
        .tool_choice(ToolChoice::Required);

    let built = Request::build(&request, &config()).unwrap();

    assert_eq!(value(built.output_config.as_ref().unwrap())["effort"], "xhigh");
    assert_eq!(value(built.tool_choice.as_ref().unwrap())["type"], "any");
}

#[test]
fn maps_no_reasoning_effort_onto_disabled_thinking() {
    let request = GenerateRequest::new()
        .message(Message::text(Role::User, "Hello"))
        .reasoning_effort(ReasoningEffort::Off);

    let built = Request::build(&request, &config()).unwrap();

    assert_eq!(value(built.thinking.as_ref().unwrap())["type"], "disabled");
    assert!(built.output_config.is_none());
}

#[test]
fn anthropic_refuses_capabilities_it_cannot_express() {
    let unsupported = [
        GenerateRequest::new().previous_response_id("msg_1"),
        GenerateRequest::new().reasoning_effort(ReasoningEffort::Minimal),
        GenerateRequest::new().response_format(ResponseFormat::JsonObject),
    ];

    for request in unsupported {
        assert!(matches!(
            Request::build(&request, &config()),
            Err(ProviderError::UnsupportedCapability { .. })
        ));
    }
}

#[test]
fn rejects_tool_arguments_that_are_not_an_object() {
    let request = GenerateRequest::new().message(Message::new(
        Role::Assistant,
        vec![InputContent::ToolCall {
            id: "toolu_1".to_string(),
            name: "add".to_string(),
            arguments: "42".to_string(),
        }],
    ));

    assert!(matches!(Request::build(&request, &config()), Err(ProviderError::InvalidRequest { .. })));
}

#[test]
fn splits_a_data_uri_into_a_base64_source() {
    let request = GenerateRequest::new().message(Message::new(
        Role::User,
        vec![InputContent::ImageUrl("data:image/png;base64,iVBORw0KGgo=".to_string())],
    ));

    let built = Request::build(&request, &config()).unwrap();
    let source = &messages(&built)[0]["content"][0]["source"];

    assert_eq!(source["type"], "base64");
    assert_eq!(source["media_type"], "image/png");
    assert_eq!(source["data"], "iVBORw0KGgo=");
}

#[test]
fn refuses_a_malformed_data_uri() {
    let request = GenerateRequest::new().message(Message::new(
        Role::User,
        vec![InputContent::ImageUrl("data:image/png,iVBORw0KGgo=".to_string())],
    ));

    assert!(matches!(Request::build(&request, &config()), Err(ProviderError::InvalidRequest { .. })));
}

fn usage(input: Option<u64>, output: Option<u64>) -> ResponseUsage {
    ResponseUsage {
        input_tokens: input,
        output_tokens: output,
        cache_creation_input_tokens: None,
        cache_read_input_tokens: None,
    }
}

#[test]
fn normalizes_anthropic_response() {
    let wire = Response {
        id: "msg_1".to_string(),
        model: "anthropic-test".to_string(),
        stop_reason: Some("end_turn".to_string()),
        content: vec![json(r#"{"type": "text", "text": "hello"}"#)],
        usage: Some(usage(Some(2), Some(1))),
        extra: vec![
            ("type".to_string(), json("\"message\"")),
            ("role".to_string(), json("\"assistant\"")),
        ],
    };

    let response = GenerateResponse::from(wire);

    assert_eq!(response.output_text(), "hello");
    assert_eq!(response.status, ResponseStatus::Completed);
    let usage = response.usage.unwrap();
    assert_eq!(usage.total_tokens, 3);
    assert_eq!(value(response.provider_metadata.as_ref().unwrap())["role"], "assistant");
}

fn drain(provider: &str, dialect: ProviderDialect, chunks: Vec<Vec<u8>>) -> Result<GenerateResponse, ProviderError> {
    let mut state = StreamState::new(provider, StreamDecoder::new(dialect));
    let mut chunks = chunks.into_iter();
    loop {
        match state.next_event()? {
            Next::Event(_) => {}
            Next::NeedBytes => match chunks.next() {
                Some(chunk) => state.take(&chunk)?,
                None => state.finish(),
            },
            Next::End => break,
        }
    }
    state.into_response()
}

#[test]
fn anthropic_streamed_response_matches_generate() {
    let streamed = drain(
        "anthropic",
        ProviderDialect::Anthropic,
        vec![
            b"event: message_start\ndata: {\"message\":{\"id\":\"msg_1\",\"model\":\"sonnet-4\",\"usage\":{\"input_tokens\":11,\"output_tokens\":0}}}\n\n".to_vec(),
            b"event: content_block_start\ndata: {\"index\":0,\"content_block\":{\"type\":\"text\",\"text\":\"\"}}\n\n".to_vec(),
            b"event: content_block_delta\ndata: {\"index\":0,\"delta\":{\"type\":\"text_delta\",\"text\":\"Hel\"}}\n\n".to_vec(),
            b"event: content_block_delta\ndata: {\"index\":0,\"delta\":{\"type\":\"text_delta\",\"text\":\"lo\"}}\n\n".to_vec(),
            b"event: content_block_stop\ndata: {\"index\":0}\n\n".to_vec(),
            b"event: content_block_start\ndata: {\"index\":1,\"content_block\":{\"type\":\"thinking\",\"thinking\":\"\",\"signature\":\"\"}}\n\n".to_vec(),
            b"event: content_block_delta\ndata: {\"index\":1,\"delta\":{\"type\":\"thinking_delta\",\"thinking\":\"Considering.\"}}\n\n".to_vec(),
            b"event: content_block_delta\ndata: {\"index\":1,\"delta\":{\"type\":\"signature_delta\",\"signature\":\"sig-1\"}}\n\n".to_vec(),
            b"event: content_block_stop\ndata: {\"index\":1}\n\n".to_vec(),
            b"event: content_block_start\ndata: {\"index\":2,\"content_block\":{\"type\":\"tool_use\",\"id\":\"toolu_1\",\"name\":\"get_weather\",\"input\":{}}}\n\n".to_vec(),
            b"event: content_block_delta\ndata: {\"index\":2,\"delta\":{\"type\":\"input_json_delta\",\"partial_json\":\"{\\\"city\\\":\\\"NYC\\\"}\"}}\n\n".to_vec(),
            b"event: content_block_stop\ndata: {\"index\":2}\n\n".to_vec(),
            b"event: message_delta\ndata: {\"delta\":{\"stop_reason\":\"tool_use\"},\"usage\":{\"output_tokens\":9}}\n\n".to_vec(),
        ],
    )
    .expect("drained");

    let parsed = GenerateResponse::from(Response {
        id: "msg_1".to_string(),
        model: "sonnet-4".to_string(),
        stop_reason: Some("tool_use".to_string()),
        content: vec![
            json(r#"{"type":"text","text":"Hello"}"#),
            json(r#"{"type":"thinking","thinking":"Considering.","signature":"sig-1"}"#),
            json(r#"{"type":"tool_use","id":"toolu_1","name":"get_weather","input":{"city":"NYC"}}"#),
        ],
        usage: Some(usage(Some(11), Some(9))),
        extra: Vec::new(),
    });

    assert_eq!(streamed.id, parsed.id);
    assert_eq!(streamed.model, parsed.model);
    assert_eq!(streamed.status, parsed.status);
    assert_eq!(streamed.usage, parsed.usage);
    assert_eq!(streamed.content, parsed.content, "content must match part for part");
    assert_eq!(streamed.output_text(), "Hello");
    assert!(streamed.provider_metadata.is_some(), "metadata must be populated");
    assert_eq!(streamed.content.len(), 3, "text, reasoning blob, and tool call must all survive the stream");
    assert!(streamed.has_tool_calls());
    assert_eq!(streamed.to_message(), parsed.to_message());
}

#[test]
fn counts_cached_prompt_tokens_toward_the_input_total() {
    let wire = Response {
        id: "msg_1".to_string(),
        model: "anthropic-test".to_string(),
        stop_reason: Some("end_turn".to_string()),
        content: Vec::new(),
        usage: Some(ResponseUsage {
            input_tokens: Some(10),
            output_tokens: Some(5),
            cache_creation_input_tokens: Some(100),
            cache_read_input_tokens: Some(1000),
        }),
        extra: Vec::new(),
    };

    let usage = GenerateResponse::from(wire).usage.unwrap();

    assert_eq!(usage.input_tokens, 1110);
    assert_eq!(usage.total_tokens, 1115);
}

#[test]
fn anthropic_round_trips_a_tool_call_back_into_a_request() {
    let wire = Response {
        id: "msg_1".to_string(),
        model: "anthropic-test".to_string(),
        stop_reason: Some("tool_use".to_string()),
        content: vec![
            json(r#"{"type": "thinking", "thinking": "adding", "signature": "sig"}"#),
            json(r#"{"type": "tool_use", "id": "toolu_1", "name": "add", "input": {"a": 20, "b": 22}}"#),
        ],
        usage: None,
        extra: Vec::new(),
    };

    let response = GenerateResponse::from(wire);
    assert_eq!(response.status, ResponseStatus::RequiresAction);
    assert_eq!(response.tool_calls(), vec![("toolu_1", "add", "{\"a\":20,\"b\":22}")]);

    let follow_up = GenerateRequest::new()
        .message(Message::text(Role::User, "What is 20 + 22?"))
        .message(response.to_message())
        .message(Message::tool_result("toolu_1", "42"));

    let built = Request::build(&follow_up, &config()).unwrap();
    let messages = messages(&built);

    assert_eq!(messages.len(), 3);
    assert_eq!(messages[1]["content"][0]["type"], "thinking");
    assert_eq!(messages[1]["content"][0]["signature"], "sig");
    assert_eq!(messages[1]["content"][1]["type"], "tool_use");
    assert_eq!(messages[2]["content"][0]["tool_use_id"], "toolu_1");
}

#[test]
fn preserves_a_refusal_rather_than_calling_it_a_failure() {
    let wire = Response {
        id: "msg_1".to_string(),
        model: "anthropic-test".to_string(),
        stop_reason: Some("refusal".to_string()),
        content: Vec::new(),
        usage: None,
        extra: Vec::new(),
    };

    assert_eq!(GenerateResponse::from(wire).status, ResponseStatus::Other("refusal".to_string()));
}

fn decode_all(frames: &[(&str, &str)]) -> Vec<RawDelta> {
    let mut decoder = Decoder::new();
    let mut out = Vec::new();
    for (event, data) in frames {
        let frame = SseFrame { event: Some((*event).to_string()), data: (*data).to_string() };
        decoder.decode(&frame, "test-endpoint", &mut out).expect("decodes");
    }
    out
}

#[test]
fn anthropic_decodes_streaming_text() {
    let deltas = decode_all(&[
        (
            "message_start",
            r#"{"message":{"id":"msg_1","model":"sonnet-4","usage":{"input_tokens":11,"output_tokens":0}}}"#,
        ),
        ("content_block_start", r#"{"index":0,"content_block":{"type":"text","text":""}}"#),
        ("content_block_delta", r#"{"index":0,"delta":{"type":"text_delta","text":"Hello"}}"#),
    ]);

    assert!(deltas.iter().any(|d| *d == RawDelta::Text("Hello".to_string())), "{deltas:?}");
}

#[test]
fn anthropic_decodes_streaming_tool_call() {
    let deltas = decode_all(&[
        ("content_block_start", r#"{"index":0,"content_block":{"type":"text","text":""}}"#),
        ("content_block_delta", r#"{"index":0,"delta":{"type":"text_delta","text":"Let me check."}}"#),
        ("content_block_stop", r#"{"index":0}"#),
        (
            "content_block_start",
            r#"{"index":1,"content_block":{"type":"tool_use","id":"toolu_01","name":"get_weather","input":{}}}"#,
        ),
        ("content_block_delta", r#"{"index":1,"delta":{"type":"input_json_delta","partial_json":"{\"loc"}}"#),
        ("content_block_delta", r#"{"index":1,"delta":{"type":"input_json_delta","partial_json":"ation\":\"NYC\"}"}}"#),
        ("content_block_stop", r#"{"index":1}"#),
    ]);

    let expected = vec![
        RawDelta::Text("Let me check.".to_string()),
        RawDelta::ToolStart { slot: 1, id: "toolu_01".to_string(), name: "get_weather".to_string() },
        RawDelta::ToolArgs { slot: 1, fragment: "{\"loc".to_string() },
        RawDelta::ToolArgs { slot: 1, fragment: "ation\":\"NYC\"}".to_string() },
        RawDelta::ToolEnd { slot: 1 },
    ];
    assert_eq!(
        deltas, expected,
        "the index counts content blocks, so prose ahead of the call pushes it to 1; stopping a text block must emit no ToolEnd"
    );
}

#[test]
fn decodes_streaming_thinking_into_a_replayable_blob() {
    let deltas = decode_all(&[
        ("content_block_start", r#"{"index":0,"content_block":{"type":"thinking","thinking":"","signature":""}}"#),
        ("content_block_delta", r#"{"index":0,"delta":{"type":"thinking_delta","thinking":"Let me work through it."}}"#),
        ("content_block_delta", r#"{"index":0,"delta":{"type":"signature_delta","signature":"abc123"}}"#),
        ("content_block_stop", r#"{"index":0}"#),
    ]);

    assert_eq!(deltas[0], RawDelta::ReasoningText("Let me work through it.".to_string()));
    match &deltas[1] {
        RawDelta::ReasoningBlob(blob) => assert_eq!(
            value(blob),
            parsed(r#"{"type": "thinking", "thinking": "Let me work through it.", "signature": "abc123"}"#)
        ),
        other => panic!("expected the reconstructed block, got {other:?}"),
    }
}

#[test]
fn preserves_unrecognised_blocks_when_streaming() {
    let deltas = decode_all(&[
        (
            "content_block_start",
            r#"{"index":0,"content_block":{"type":"redacted_thinking","data":"EncryptedPayload=="}}"#,
        ),
        ("content_block_stop", r#"{"index":0}"#),
    ]);

    assert_eq!(deltas.len(), 1, "{deltas:?}");
    match &deltas[0] {
        RawDelta::ReasoningBlob(blob) => assert_eq!(
            value(blob),
            parsed(r#"{"type": "redacted_thinking", "data": "EncryptedPayload=="}"#)
        ),
        other => panic!("expected the block verbatim, got {other:?}"),
    }
}

#[test]
fn opaque_blocks_capture_their_streamed_input() {
    let deltas = decode_all(&[
        (
            "content_block_start",
            r#"{"index":0,"content_block":{"type":"server_tool_use","id":"srvtoolu_1","name":"web_search","input":{}}}"#,
        ),
        ("content_block_delta", r#"{"index":0,"delta":{"type":"input_json_delta","partial_json":"{\"query\":"}}"#),
        ("content_block_delta", r#"{"index":0,"delta":{"type":"input_json_delta","partial_json":"\"rust\"}"}}"#),
        ("content_block_stop", r#"{"index":0}"#),
    ]);

    assert_eq!(deltas.len(), 1, "{deltas:?}");
    match &deltas[0] {
        RawDelta::ReasoningBlob(blob) => assert_eq!(
            value(blob),
            parsed(r#"{"type": "server_tool_use", "id": "srvtoolu_1", "name": "web_search", "input": {"query": "rust"}}"#)
        ),
        other => panic!("expected the block with its input, got {other:?}"),
    }
}

#[test]
fn decodes_streaming_error_frame() {
    let mut decoder = Decoder::new();
    let mut out = Vec::new();
    let frame = SseFrame {
        event: Some("error".to_string()),
        data: r#"{"error":{"type":"overloaded_error","message":"Overloaded"}}"#.to_string(),
    };

    match decoder.decode(&frame, "test-endpoint", &mut out) {
        Err(ProviderError::Stream { provider, message }) => {
            assert_eq!(provider, "test-endpoint", "a compatible gateway reports itself");
            assert_eq!(message, "Overloaded");
        }
        other => panic!("expected a stream error, got {other:?}"),
    }
}
