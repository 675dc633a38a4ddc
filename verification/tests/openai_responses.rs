use freyja::config::{ProviderConfig, ProviderDialect};
use freyja::error::ProviderError;
use freyja::events::{Next, StreamState};
use freyja::json::Json;
use freyja::model::{
    GenerateRequest, GenerateResponse, InputContent, Message, ResponseStatus, Role, Usage,
};
use freyja::openai_responses::{parse_status, Decoder, Request, Response, ResponseUsage};
use freyja::presets::ProviderType;
use freyja::provider::StreamDecoder;
use freyja::sse::SseFrame;
use freyja::stream::RawDelta;
use serde_json::Value;

fn config() -> ProviderConfig {
    ProviderType::OpenAi.config()
}

fn value(j: &Json) -> Value {
    serde_json::from_str(j.text()).unwrap()
}

fn parsed(text: &str) -> Value {
    serde_json::from_str(text).unwrap()
}

fn json(text: &str) -> Json {
    Json::parse(text).unwrap()
}

fn input(request: &Request) -> Vec<Value> {
    request.input.iter().map(value).collect()
}

#[test]
fn maps_neutral_request_to_openai_wire_format() {
    let request = GenerateRequest::new()
        .message(Message::text(Role::System, "Be concise"))
        .message(Message::text(Role::User, "Hello"))
        .max_tokens(42);

    let wire = Request::build(&request, &config()).unwrap();
    let input = input(&wire);

    assert_eq!(wire.model, "gpt-5.6-sol");
    assert_eq!(wire.instructions.as_deref(), Some("Be concise"));
    assert_eq!(input[0]["type"], "message");
    assert_eq!(input[0]["content"][0]["type"], "input_text");
    assert_eq!(wire.max_output_tokens, Some(42));
}

#[test]
fn responses_omits_capabilities_the_caller_did_not_ask_for() {
    let request = GenerateRequest::new().message(Message::text(Role::User, "Hello"));

    let wire = Request::build(&request, &config()).unwrap();

    assert!(wire.reasoning.is_none());
    assert!(wire.tool_choice.is_none());
    assert!(wire.tools.is_empty());
}

#[test]
fn responses_maps_a_full_tool_round_trip() {
    let request = GenerateRequest::new()
        .message(Message::text(Role::User, "What is 20 + 22?"))
        .message(Message::new(
            Role::Assistant,
            vec![
                InputContent::Text("Let me add those.".to_string()),
                InputContent::ToolCall {
                    id: "call_1".to_string(),
                    name: "add".to_string(),
                    arguments: "{\"a\":20,\"b\":22}".to_string(),
                },
            ],
        ))
        .message(Message::tool_result("call_1", "42"));

    let wire = Request::build(&request, &config()).unwrap();
    let input = input(&wire);

    assert_eq!(input.len(), 4);
    assert_eq!(input[0]["type"], "message");
    assert_eq!(input[0]["role"], "user");

    assert_eq!(input[1]["type"], "message");
    assert_eq!(input[1]["role"], "assistant");
    assert_eq!(input[1]["content"][0]["type"], "output_text");

    assert_eq!(input[2]["type"], "function_call");
    assert_eq!(input[2]["call_id"], "call_1");
    assert_eq!(input[2]["name"], "add");
    assert_eq!(input[2]["arguments"], "{\"a\":20,\"b\":22}");

    assert_eq!(input[3]["type"], "function_call_output");
    assert_eq!(input[3]["call_id"], "call_1");
    assert_eq!(input[3]["output"], "42");
}

#[test]
fn responses_rejects_text_in_a_tool_message() {
    let request = GenerateRequest::new().message(Message::text(Role::Tool, "42"));

    assert!(matches!(Request::build(&request, &config()), Err(ProviderError::InvalidRequest { .. })));
}

#[test]
fn normalizes_openai_response() {
    let wire = Response {
        id: "resp_1".to_string(),
        model: "gpt-test".to_string(),
        status: "completed".to_string(),
        output: vec![json(r#"{"type":"message", "content":[{"type":"output_text", "text":"hello"}]}"#)],
        usage: Some(ResponseUsage { input_tokens: 2, output_tokens: 1, total_tokens: 3 }),
        extra: Vec::new(),
    };

    let response = GenerateResponse::from(wire);
    assert_eq!(response.output_text(), "hello");
    assert_eq!(response.status, ResponseStatus::Completed);
    assert_eq!(response.usage.unwrap().total_tokens, 3);
}

#[test]
fn maps_every_status_it_names() {
    assert_eq!(parse_status("completed".to_string()), ResponseStatus::Completed);
    assert_eq!(parse_status("incomplete".to_string()), ResponseStatus::Incomplete);
    assert_eq!(parse_status("requires_action".to_string()), ResponseStatus::RequiresAction);
    assert_eq!(parse_status("failed".to_string()), ResponseStatus::Failed);
    assert_eq!(parse_status("queued".to_string()), ResponseStatus::Other("queued".to_string()));
}

#[test]
fn responses_round_trips_a_tool_call_back_into_a_request() {
    let wire = Response {
        id: "resp_1".to_string(),
        model: "gpt-test".to_string(),
        status: "requires_action".to_string(),
        output: vec![json(
            r#"{"type": "function_call", "call_id": "call_1", "name": "add", "arguments": "{\"a\":20,\"b\":22}"}"#,
        )],
        usage: None,
        extra: Vec::new(),
    };

    let response = GenerateResponse::from(wire);
    assert_eq!(response.tool_calls(), vec![("call_1", "add", "{\"a\":20,\"b\":22}")]);

    let follow_up = GenerateRequest::new()
        .message(Message::text(Role::User, "What is 20 + 22?"))
        .message(response.to_message())
        .message(Message::tool_result("call_1", "42"));

    let wire = Request::build(&follow_up, &config()).unwrap();
    let input = input(&wire);

    assert_eq!(input.len(), 3);
    assert_eq!(input[1]["type"], "function_call");
    assert_eq!(input[2]["type"], "function_call_output");
    assert_eq!(input[2]["output"], "42");
}

fn drain(provider: &str, dialect: ProviderDialect, chunks: Vec<Vec<u8>>) -> Result<GenerateResponse, ProviderError> {
    let mut state = StreamState::new(provider, StreamDecoder::new(dialect));
    let mut chunks = chunks.into_iter();
    loop {
        match state.next_event()? {
            Next::Event(_) => {}
            Next::NeedBytes => match chunks.next() {
                Some(chunk) => state.take(&chunk)?,
                None => state.finish(),
            },
            Next::End => break,
        }
    }
    state.into_response()
}

#[test]
fn responses_streamed_response_matches_generate() {
    let frames = [
        ("response.created", r#"{"response":{"id":"resp_1","model":"gpt-5","status":"in_progress"}}"#),
        ("response.output_item.added", r#"{"output_index":0,"item":{"type":"reasoning","id":"rs_1","summary":[]}}"#),
        ("response.reasoning_summary_text.delta", r#"{"item_id":"rs_1","output_index":0,"delta":"Thinking."}"#),
        (
            "response.output_item.done",
            r#"{"output_index":0,"item":{"type":"reasoning","id":"rs_1","summary":[{"type":"summary_text","text":"Thinking."}]}}"#,
        ),
        (
            "response.output_item.added",
            r#"{"output_index":1,"item":{"type":"message","id":"msg_1","role":"assistant","content":[]}}"#,
        ),
        ("response.output_text.delta", r#"{"item_id":"msg_1","output_index":1,"delta":"Hel"}"#),
        ("response.output_text.delta", r#"{"item_id":"msg_1","output_index":1,"delta":"lo"}"#),
        ("response.output_text.done", r#"{"item_id":"msg_1","output_index":1,"content_index":0,"text":"Hello"}"#),
        ("response.output_text.delta", r#"{"item_id":"msg_1","output_index":1,"content_index":1,"delta":"Bye"}"#),
        ("response.output_text.done", r#"{"item_id":"msg_1","output_index":1,"content_index":1,"text":"Bye"}"#),
        ("response.refusal.delta", r#"{"item_id":"msg_1","output_index":1,"delta":"I cannot help"}"#),
        (
            "response.output_item.done",
            r#"{"output_index":1,"item":{"type":"message","id":"msg_1","role":"assistant","content":[{"type":"output_text","text":"Hello"},{"type":"output_text","text":"Bye"},{"type":"refusal","refusal":"I cannot help"}]}}"#,
        ),
        (
            "response.output_item.added",
            r#"{"output_index":2,"item":{"type":"function_call","id":"fc_1","call_id":"call_1","name":"get_weather","arguments":""}}"#,
        ),
        ("response.function_call_arguments.delta", r#"{"item_id":"fc_1","output_index":2,"delta":"{\"loc"}"#),
        (
            "response.function_call_arguments.done",
            r#"{"item_id":"fc_1","output_index":2,"arguments":"{\"location\":\"NYC\"}"}"#,
        ),
        (
            "response.output_item.done",
            r#"{"output_index":2,"item":{"type":"function_call","id":"fc_1","call_id":"call_1","name":"get_weather","arguments":"{\"location\":\"NYC\"}"}}"#,
        ),
        (
            "response.completed",
            r#"{"response":{"id":"resp_1","model":"gpt-5","status":"requires_action","usage":{"input_tokens":11,"output_tokens":9,"total_tokens":20}}}"#,
        ),
    ];

    let streamed = drain(
        "openai",
        ProviderDialect::OpenAiResponses,
        frames.iter().map(|(event, data)| format!("event: {event}\ndata: {data}\n\n").into_bytes()).collect(),
    )
    .expect("drained");

    let parsed = GenerateResponse::from(Response {
        id: "resp_1".to_string(),
        model: "gpt-5".to_string(),
        status: "requires_action".to_string(),
        output: vec![
            json(r#"{"type":"reasoning","id":"rs_1","summary":[{"type":"summary_text","text":"Thinking."}]}"#),
            json(r#"{"type":"message","id":"msg_1","role":"assistant","content":[{"type":"output_text","text":"Hello"},{"type":"output_text","text":"Bye"},{"type":"refusal","refusal":"I cannot help"}]}"#),
            json(r#"{"type":"function_call","id":"fc_1","call_id":"call_1","name":"get_weather","arguments":"{\"location\":\"NYC\"}"}"#),
        ],
        usage: Some(ResponseUsage { input_tokens: 11, output_tokens: 9, total_tokens: 20 }),
        extra: Vec::new(),
    });

    assert_eq!(streamed.id, parsed.id);
    assert_eq!(streamed.model, parsed.model);
    assert_eq!(streamed.status, parsed.status);
    assert_eq!(streamed.usage, parsed.usage);
    assert_eq!(streamed.content, parsed.content, "content must match part for part");
    assert_eq!(streamed.to_message(), parsed.to_message());
}

fn decode_all(frames: &[(&str, &str)]) -> Vec<RawDelta> {
    let mut decoder = Decoder;
    let mut out = Vec::new();
    for (event, data) in frames {
        let frame = SseFrame { event: Some((*event).to_string()), data: (*data).to_string() };
        decoder.decode(&frame, "test-endpoint", &mut out).expect("decodes");
    }
    out
}

#[test]
fn responses_decodes_streaming_text() {
    let deltas = decode_all(&[
        ("response.created", r#"{"response":{"id":"resp_1","model":"gpt-5","status":"in_progress"}}"#),
        ("response.output_text.delta", r#"{"item_id":"msg_1","output_index":0,"delta":"Hello"}"#),
    ]);

    assert!(deltas.iter().any(|d| *d == RawDelta::Text("Hello".to_string())), "{deltas:?}");
}

#[test]
fn responses_decodes_streaming_tool_call() {
    let deltas = decode_all(&[
        (
            "response.output_item.added",
            r#"{"output_index":0,"item":{"type":"function_call","id":"fc_1","call_id":"call_abc","name":"get_weather","arguments":""}}"#,
        ),
        ("response.function_call_arguments.delta", r#"{"item_id":"fc_1","output_index":0,"delta":"{\"loc"}"#),
        (
            "response.function_call_arguments.done",
            r#"{"item_id":"fc_1","output_index":0,"arguments":"{\"location\":\"NYC\"}"}"#,
        ),
    ]);

    assert_eq!(
        deltas,
        vec![
            RawDelta::ToolStart { slot: 0, id: "call_abc".to_string(), name: "get_weather".to_string() },
            RawDelta::ToolArgs { slot: 0, fragment: "{\"loc".to_string() },
            RawDelta::ToolReplace { slot: 0, arguments: "{\"location\":\"NYC\"}".to_string() },
            RawDelta::ToolEnd { slot: 0 },
        ],
        "the done frame repeats the complete arguments, so it must replace the buffer"
    );
}

#[test]
fn responses_decodes_streaming_completion() {
    let deltas = decode_all(&[(
        "response.completed",
        r#"{"response":{"id":"resp_1","model":"gpt-5","status":"completed","usage":{"input_tokens":11,"output_tokens":9,"total_tokens":20}}}"#,
    )]);

    assert_eq!(deltas.len(), 1, "{deltas:?}");
    match &deltas[0] {
        RawDelta::Meta { id, model, status, usage, provider_metadata } => {
            assert_eq!(id.as_deref(), Some("resp_1"));
            assert_eq!(model.as_deref(), Some("gpt-5"));
            assert_eq!(*status, Some(ResponseStatus::Completed));
            assert_eq!(*usage, Some(Usage { input_tokens: 11, output_tokens: 9, total_tokens: 20 }));
            assert_eq!(
                value(provider_metadata.as_ref().unwrap()),
                parsed(r#"{"id": "resp_1", "model": "gpt-5", "status": "completed",
                    "usage": {"input_tokens": 11, "output_tokens": 9, "total_tokens": 20}}"#)
            );
        }
        other => panic!("expected metadata, got {other:?}"),
    }
}

#[test]
fn preserves_unrecognised_items_when_streaming() {
    let deltas = decode_all(&[(
        "response.output_item.done",
        r#"{"output_index":0,"item":{"type":"web_search_call","id":"ws_1","status":"completed"}}"#,
    )]);

    assert_eq!(deltas.len(), 1, "{deltas:?}");
    match &deltas[0] {
        RawDelta::ReasoningBlob(blob) => assert_eq!(
            value(blob),
            parsed(r#"{"type": "web_search_call", "id": "ws_1", "status": "completed"}"#)
        ),
        other => panic!("expected the item verbatim, got {other:?}"),
    }
}
