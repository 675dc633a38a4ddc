use freyja::config::{ProviderConfig, ProviderDialect};
use freyja::error::ProviderError;
use freyja::events::{Next, StreamState};
use freyja::gemini::{thinking_level, Decoder, Request, Response, ResponseUsage};
use freyja::json::Json;
use freyja::model::{
    GenerateRequest, GenerateResponse, InputContent, Message, OutputContent, ReasoningEffort,
    ResponseFormat, ResponseStatus, Role, ToolChoice, Usage,
};
use freyja::presets::ProviderType;
use freyja::provider::StreamDecoder;
use freyja::sse::SseFrame;
use freyja::stream::RawDelta;
use serde_json::Value;

fn value(j: &Json) -> Value {
    serde_json::from_str(j.text()).unwrap()
}

fn parsed(text: &str) -> Value {
    serde_json::from_str(text).unwrap()
}

fn json(text: &str) -> Json {
    Json::parse(text).unwrap()
}

fn decode_all(frames: &[&str]) -> Vec<RawDelta> {
    let mut decoder = Decoder::new();
    let mut out = Vec::new();
    for data in frames {
        let frame = SseFrame { event: None, data: (*data).to_string() };
        decoder.decode(&frame, "test-endpoint", &mut out).expect("decodes");
    }
    out
}

fn blob(delta: &RawDelta) -> Value {
    match delta {
        RawDelta::ReasoningBlob(blob) => value(blob),
        other => panic!("expected a blob, got {other:?}"),
    }
}

#[test]
fn gemini_decodes_streaming_text() {
    let deltas = decode_all(&[
        r#"{"index":0,"step":{"type":"model_output"},"event_type":"step.start"}"#,
        r#"{"index":0,"delta":{"type":"text","text":"Hello"},"event_type":"step.delta"}"#,
    ]);

    assert!(deltas.iter().any(|d| *d == RawDelta::Text("Hello".to_string())), "{deltas:?}");
}

#[test]
fn gemini_decodes_streaming_tool_call() {
    let deltas = decode_all(&[
        r#"{"index":0,"step":{"type":"function_call","id":"un6k8t18","name":"get_weather","arguments":{}},"event_type":"step.start"}"#,
        r#"{"index":0,"delta":{"type":"arguments_delta","arguments":"{\"location\": "},"event_type":"step.delta"}"#,
        r#"{"index":0,"delta":{"type":"arguments_delta","arguments":"\"San Francisco, CA\"}"},"event_type":"step.delta"}"#,
        r#"{"index":0,"event_type":"step.stop"}"#,
    ]);

    assert_eq!(
        deltas,
        vec![
            RawDelta::ToolStart { slot: 0, id: "un6k8t18".to_string(), name: "get_weather".to_string() },
            RawDelta::ToolArgs { slot: 0, fragment: "{\"location\": ".to_string() },
            RawDelta::ToolArgs { slot: 0, fragment: "\"San Francisco, CA\"}".to_string() },
            RawDelta::ToolEnd { slot: 0 },
        ],
        "arguments_delta fragments accumulate; the docs require it"
    );
}

#[test]
fn decodes_streaming_thought_into_a_replayable_blob() {
    let deltas = decode_all(&[
        r#"{"index":0,"step":{"type":"thought"},"event_type":"step.start"}"#,
        r#"{"index":0,"delta":{"type":"thought_summary","content":{"type":"text","text":"Working it out."}},"event_type":"step.delta"}"#,
        r#"{"index":0,"delta":{"type":"thought_signature","signature":"sig-abc"},"event_type":"step.delta"}"#,
        r#"{"index":0,"event_type":"step.stop"}"#,
    ]);

    assert_eq!(deltas[0], RawDelta::ReasoningText("Working it out.".to_string()));
    assert_eq!(
        blob(&deltas[1]),
        parsed(r#"{"type": "thought", "signature": "sig-abc"}"#),
        "the signature is the part the API requires resent verbatim"
    );
}

#[test]
fn preserves_unrecognised_steps_when_streaming() {
    let deltas = decode_all(&[
        r#"{"index":0,"step":{"type":"safety_report","verdict":"ok"},"event_type":"step.start"}"#,
        r#"{"index":0,"event_type":"step.stop"}"#,
    ]);

    assert_eq!(deltas.len(), 1, "{deltas:?}");
    assert_eq!(blob(&deltas[0]), parsed(r#"{"type": "safety_report", "verdict": "ok"}"#));
}

#[test]
fn gemini_decodes_streaming_completion() {
    let deltas = decode_all(&[
        r#"{"interaction":{"id":"v1_abc123","model":"gemini-3.6-flash","status":"completed","usage":{"total_tokens":346,"total_input_tokens":11,"total_output_tokens":90}},"event_type":"interaction.completed"}"#,
    ]);

    assert_eq!(deltas.len(), 1, "{deltas:?}");
    match &deltas[0] {
        RawDelta::Meta { id, model, status, usage, provider_metadata } => {
            assert_eq!(id.as_deref(), Some("v1_abc123"));
            assert_eq!(model.as_deref(), Some("gemini-3.6-flash"));
            assert_eq!(*status, Some(ResponseStatus::Completed));
            assert_eq!(*usage, Some(Usage { input_tokens: 11, output_tokens: 90, total_tokens: 346 }));
            assert_eq!(
                value(provider_metadata.as_ref().unwrap()),
                parsed(r#"{"id": "v1_abc123", "model": "gemini-3.6-flash", "status": "completed",
                    "usage": {"total_tokens": 346, "total_input_tokens": 11, "total_output_tokens": 90}}"#)
            );
        }
        other => panic!("expected metadata, got {other:?}"),
    }
}

fn config() -> ProviderConfig {
    ProviderType::Gemini.config()
}

fn input(request: &Request) -> Value {
    value(&request.input)
}

#[test]
fn maps_neutral_request_to_gemini_wire_format() {
    let request = GenerateRequest::new()
        .message(Message::text(Role::System, "Be concise"))
        .message(Message::text(Role::User, "Hello"))
        .max_tokens(42);

    let wire = Request::build(&request, &config()).unwrap();

    assert_eq!(wire.model, "gemini-3.5-flash");
    assert_eq!(wire.system_instruction.as_deref(), Some("Be concise"));
    assert_eq!(input(&wire), "Hello");
    assert_eq!(wire.generation_config.as_ref().unwrap().max_output_tokens, Some(42));
}

#[test]
fn sampling_controls_are_nested_together() {
    let request = GenerateRequest::new()
        .message(Message::text(Role::User, "Hi"))
        .max_tokens(42)
        .temperature(0.2f32.to_bits())
        .top_p(0.9f32.to_bits());

    let wire = Request::build(&request, &config()).unwrap();

    let nested = wire.generation_config.as_ref().unwrap();
    assert_eq!(nested.max_output_tokens, Some(42));
    assert_eq!(nested.temperature.map(f32::from_bits), Some(0.2f32));
    assert_eq!(nested.top_p.map(f32::from_bits), Some(0.9f32));
}

#[test]
fn reasoning_effort_is_nested_as_thinking_level() {
    for (effort, expected) in [
        (ReasoningEffort::Low, "low"),
        (ReasoningEffort::Medium, "medium"),
        (ReasoningEffort::High, "high"),
    ] {
        let request = GenerateRequest::new().message(Message::text(Role::User, "Hi")).reasoning_effort(effort);

        let wire = Request::build(&request, &config()).unwrap();

        assert_eq!(wire.generation_config.as_ref().unwrap().thinking_level, Some(expected));
    }
}

#[test]
fn reasoning_effort_alone_still_builds_a_generation_config() {
    let request = GenerateRequest::new()
        .message(Message::text(Role::User, "Hi"))
        .reasoning_effort(ReasoningEffort::Low);

    let wire = Request::build(&request, &config()).unwrap();

    let nested = wire.generation_config.as_ref().unwrap();
    assert_eq!(nested.thinking_level, Some("low"));
    assert!(nested.temperature.is_none());
}

#[test]
fn no_sampling_controls_means_no_generation_config() {
    let request = GenerateRequest::new().message(Message::text(Role::User, "Hi"));

    let wire = Request::build(&request, &config()).unwrap();

    assert!(wire.generation_config.is_none());
}

#[test]
fn thinking_levels_cover_the_portable_scale() {
    assert_eq!(thinking_level(ReasoningEffort::Minimal), Ok("minimal"));
    assert_eq!(thinking_level(ReasoningEffort::Low), Ok("low"));
    assert_eq!(thinking_level(ReasoningEffort::Off), Err("reasoning effort 'none'"));
    assert_eq!(thinking_level(ReasoningEffort::Xhigh), Err("reasoning effort 'xhigh'"));
    assert_eq!(thinking_level(ReasoningEffort::Max), Err("reasoning effort 'max'"));
}

#[test]
fn response_format_carries_the_schema_itself() {
    let schema = r#"{"type": "object", "properties": {"name": {"type": "string"}},
        "required": ["name"], "additionalProperties": false}"#;
    let request = GenerateRequest::new()
        .message(Message::text(Role::User, "Hi"))
        .response_format(ResponseFormat::JsonSchema { name: "person".to_string(), schema: json(schema), strict: true });

    let wire = Request::build(&request, &config()).unwrap();
    let format = value(wire.response_format.as_ref().unwrap());

    assert_eq!(format, parsed(schema));
    assert!(format.get("name").is_none());
    assert!(format.get("strict").is_none());
}

#[test]
fn the_looser_json_modes_use_plain_type_names() {
    for (format, expected) in [(ResponseFormat::Text, "text"), (ResponseFormat::JsonObject, "object")] {
        let request = GenerateRequest::new().message(Message::text(Role::User, "Hi")).response_format(format);

        let wire = Request::build(&request, &config()).unwrap();

        let mut object = serde_json::Map::new();
        object.insert("type".to_string(), Value::String(expected.to_string()));
        assert_eq!(value(wire.response_format.as_ref().unwrap()), Value::Object(object));
    }
}

#[test]
fn multi_turn_uses_the_step_list_format() {
    let request = GenerateRequest::new()
        .message(Message::text(Role::User, "Hi"))
        .message(Message::text(Role::Assistant, "Hello"))
        .message(Message::text(Role::User, "Bye"));

    let wire = Request::build(&request, &config()).unwrap();
    let input = input(&wire);
    let steps = input.as_array().unwrap();

    assert_eq!(steps.len(), 3);
    assert_eq!(steps[0]["type"], "user_input");
    assert_eq!(steps[0]["content"][0]["type"], "text");
    assert_eq!(steps[1]["type"], "model_output");
    assert_eq!(steps[2]["type"], "user_input");
}

#[test]
fn an_image_on_a_model_turn_rides_in_its_step() {
    let request = GenerateRequest::new()
        .message(Message::new(
            Role::Assistant,
            vec![InputContent::ImageUrl("https://e.test/a.png".to_string())],
        ))
        .message(Message::text(Role::User, "What is this?"));

    let wire = Request::build(&request, &config()).unwrap();
    let input = input(&wire);

    assert_eq!(input[0]["type"], "model_output");
    assert_eq!(input[0]["content"][0]["type"], "image");
    assert_eq!(input[0]["content"][0]["uri"], "https://e.test/a.png");
}

#[test]
fn gemini_maps_a_full_tool_round_trip() {
    let request = GenerateRequest::new()
        .message(Message::text(Role::User, "What is 20 + 22?"))
        .message(Message::new(
            Role::Assistant,
            vec![
                InputContent::Reasoning { data: json(r#"{"type": "thought", "signature": "abc"}"#) },
                InputContent::ToolCall {
                    id: "call_1".to_string(),
                    name: "add".to_string(),
                    arguments: "{\"a\":20,\"b\":22}".to_string(),
                },
            ],
        ))
        .message(Message::tool_result("call_1", "42"));

    let wire = Request::build(&request, &config()).unwrap();
    let input = input(&wire);
    let steps = input.as_array().unwrap();

    assert_eq!(steps.len(), 4);
    assert_eq!(steps[0]["type"], "user_input");
    assert_eq!(steps[1]["type"], "thought");
    assert_eq!(steps[1]["signature"], "abc");
    assert_eq!(steps[2]["type"], "function_call");
    assert_eq!(steps[2]["id"], "call_1");
    assert_eq!(steps[2]["arguments"]["a"], 20);
    assert_eq!(steps[3]["type"], "function_result");
    assert_eq!(steps[3]["call_id"], "call_1");
    assert_eq!(steps[3]["name"], "add");
    assert_eq!(steps[3]["result"], "42");
}

#[test]
fn sends_an_object_result_as_a_struct() {
    let request = GenerateRequest::new()
        .message(Message::new(
            Role::Assistant,
            vec![InputContent::ToolCall {
                id: "call_1".to_string(),
                name: "add".to_string(),
                arguments: "{}".to_string(),
            }],
        ))
        .message(Message::tool_result("call_1", "{\"sum\":42}"));

    let wire = Request::build(&request, &config()).unwrap();
    let input = input(&wire);

    assert_eq!(input[1]["result"]["sum"], 42);
}

#[test]
fn rejects_a_result_with_no_matching_call() {
    let request = GenerateRequest::new().message(Message::tool_result("missing", "42"));

    assert!(matches!(Request::build(&request, &config()), Err(ProviderError::InvalidRequest { .. })));
}

#[test]
fn normalizes_gemini_response() {
    let wire = Response {
        id: "int_1".to_string(),
        model: "gemini-test".to_string(),
        status: "completed".to_string(),
        steps: vec![json(r#"{"type":"model_output", "content":[{"type":"text", "text":"hello"}]}"#)],
        usage: Some(ResponseUsage { total_input_tokens: 2, total_output_tokens: 1, total_tokens: 3 }),
        extra: Vec::new(),
    };

    let response = GenerateResponse::from(wire);
    assert_eq!(response.output_text(), "hello");
    assert_eq!(response.status, ResponseStatus::Completed);
    assert_eq!(response.usage.unwrap().total_tokens, 3);
}

#[test]
fn preserves_thought_steps_as_reasoning() {
    let wire = Response {
        id: "int_1".to_string(),
        model: "gemini-test".to_string(),
        status: "requires_action".to_string(),
        steps: vec![
            json(r#"{"type": "thought", "signature": "opaque-blob"}"#),
            json(r#"{"type": "function_call", "id": "call_1", "name": "add", "arguments": {"a": 20, "b": 22}}"#),
        ],
        usage: None,
        extra: Vec::new(),
    };

    let response = GenerateResponse::from(wire);

    match &response.content[0] {
        OutputContent::Reasoning { data } => {
            assert_eq!(value(data), parsed(r#"{"type": "thought", "signature": "opaque-blob"}"#))
        }
        other => panic!("expected reasoning, got {other:?}"),
    }
    assert!(response.has_tool_calls());

    let message = response.to_message();
    match &message.content[0] {
        InputContent::Reasoning { data } => {
            assert_eq!(value(data), parsed(r#"{"type": "thought", "signature": "opaque-blob"}"#))
        }
        other => panic!("expected reasoning, got {other:?}"),
    }
}

fn drain(provider: &str, dialect: ProviderDialect, chunks: Vec<Vec<u8>>) -> Result<GenerateResponse, ProviderError> {
    let mut state = StreamState::new(provider, StreamDecoder::new(dialect));
    let mut chunks = chunks.into_iter();
    loop {
        match state.next_event()? {
            Next::Event(_) => {}
            Next::NeedBytes => match chunks.next() {
                Some(chunk) => state.take(&chunk)?,
                None => state.finish(),
            },
            Next::End => break,
        }
    }
    state.into_response()
}

#[test]
fn gemini_streamed_response_matches_generate() {
    let frames = [
        r#"{"index":0,"step":{"type":"model_output"},"event_type":"step.start"}"#,
        r#"{"index":0,"delta":{"type":"text","text":"Hel"},"event_type":"step.delta"}"#,
        r#"{"index":0,"delta":{"type":"text","text":"lo"},"event_type":"step.delta"}"#,
        r#"{"index":0,"event_type":"step.stop"}"#,
        r#"{"index":1,"step":{"type":"model_output"},"event_type":"step.start"}"#,
        r#"{"index":1,"delta":{"type":"text","text":"Bye"},"event_type":"step.delta"}"#,
        r#"{"index":1,"event_type":"step.stop"}"#,
        r#"{"index":2,"step":{"type":"thought"},"event_type":"step.start"}"#,
        r#"{"index":2,"delta":{"type":"thought_summary","content":{"type":"text","text":"Working it out."}},"event_type":"step.delta"}"#,
        r#"{"index":2,"delta":{"type":"thought_signature","signature":"sig-abc"},"event_type":"step.delta"}"#,
        r#"{"index":2,"event_type":"step.stop"}"#,
        r#"{"index":3,"step":{"type":"function_call","id":"call_1","name":"get_weather","arguments":{}},"event_type":"step.start"}"#,
        r#"{"index":3,"delta":{"type":"arguments_delta","arguments":"{\"unit\":\"c\","},"event_type":"step.delta"}"#,
        r#"{"index":3,"delta":{"type":"arguments_delta","arguments":"\"location\":\"NYC\"}"},"event_type":"step.delta"}"#,
        r#"{"index":3,"event_type":"step.stop"}"#,
        r#"{"index":4,"step":{"type":"code_execution","language":"python"},"event_type":"step.start"}"#,
        r#"{"index":4,"delta":{"type":"code","code":"print(1)"},"event_type":"step.delta"}"#,
        r#"{"index":4,"event_type":"step.stop"}"#,
        r#"{"interaction":{"id":"v1_abc123","model":"gemini-3.6-flash","status":"requires_action","usage":{"total_input_tokens":11,"total_output_tokens":90,"total_tokens":101}},"event_type":"interaction.completed"}"#,
    ];

    let streamed = drain(
        "gemini",
        ProviderDialect::Gemini,
        frames.iter().map(|frame| format!("data: {frame}\n\n").into_bytes()).collect(),
    )
    .expect("drained");

    let parsed = GenerateResponse::from(Response {
        id: "v1_abc123".to_string(),
        model: "gemini-3.6-flash".to_string(),
        status: "requires_action".to_string(),
        steps: vec![
            json(r#"{"type":"model_output","content":[{"type":"text","text":"Hello"}]}"#),
            json(r#"{"type":"model_output","content":[{"type":"text","text":"Bye"}]}"#),
            json(r#"{"type":"thought","signature":"sig-abc"}"#),
            json(r#"{"type":"function_call","id":"call_1","name":"get_weather","arguments":{"unit":"c","location":"NYC"}}"#),
            json(r#"{"type":"code_execution","language":"python","code":"print(1)"}"#),
        ],
        usage: Some(ResponseUsage { total_input_tokens: 11, total_output_tokens: 90, total_tokens: 101 }),
        extra: Vec::new(),
    });

    assert_eq!(streamed.id, parsed.id);
    assert_eq!(streamed.model, parsed.model);
    assert_eq!(streamed.status, parsed.status);
    assert_eq!(streamed.usage, parsed.usage);
    assert_eq!(streamed.content, parsed.content, "content must match part for part");
    assert_eq!(streamed.to_message(), parsed.to_message());
}

#[test]
fn rejects_capabilities_that_cannot_be_translated() {
    let unsupported = [
        (GenerateRequest::new().reasoning_effort(ReasoningEffort::Off), "reasoning effort 'none'"),
        (GenerateRequest::new().reasoning_effort(ReasoningEffort::Xhigh), "reasoning effort 'xhigh'"),
        (GenerateRequest::new().reasoning_effort(ReasoningEffort::Max), "reasoning effort 'max'"),
        (GenerateRequest::new().tool_choice(ToolChoice::Required), "portable tool choice"),
        (GenerateRequest::new().metadata(json(r#"{"trace": "abc"}"#)), "request metadata"),
    ];

    for (request, expected) in unsupported {
        match Request::build(&request, &config()).err() {
            Some(ProviderError::UnsupportedCapability { capability, .. }) => {
                assert_eq!(capability, expected);
            }
            other => panic!("expected a refusal naming {expected}, got {other:?}"),
        }
    }
}

#[test]
fn nothing_carries_metadata_onto_the_wire() {
    let request = GenerateRequest::new().message(Message::text(Role::User, "Hi"));

    let wire = Request::build(&request, &config()).unwrap();

    // The body has no field for labels at all; what it does carry is listed here.
    assert!(wire.previous_interaction_id.is_none());
    assert!(wire.tools.is_empty());
    assert!(wire.stream.is_none());
}

#[test]
fn gemini_rejects_text_in_a_tool_message() {
    let request = GenerateRequest::new().message(Message::text(Role::Tool, "42"));

    assert!(matches!(Request::build(&request, &config()), Err(ProviderError::InvalidRequest { .. })));
}
