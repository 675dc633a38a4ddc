use freyja::config::{ProviderConfig, ProviderDialect};
use freyja::error::ProviderError;
use freyja::json::Json;
use freyja::model::{
    GenerateRequest, GenerateResponse, InputContent, Message, OutputContent, ResponseStatus, Role,
};
use freyja::openai_chat::{
    parse_finish_reason, Choice, ChoiceMessage, Decoder, Request, Response, ResponseFunction,
    ResponseToolCall, ResponseUsage,
};
use freyja::sse::SseFrame;
use freyja::stream::RawDelta;
use serde_json::Value;

fn config() -> ProviderConfig {
    ProviderConfig::new(ProviderDialect::OpenAiChat, "test-endpoint", "https://api.test/v1")
        .default_model("test-model")
}

fn value(j: &Json) -> Value {
    serde_json::from_str(j.text()).unwrap()
}

fn messages(request: &Request) -> Vec<Value> {
    request.messages.iter().map(value).collect()
}

#[test]
fn keeps_system_turns_in_the_message_array() {
    let request = GenerateRequest::new()
        .message(Message::text(Role::System, "Be concise"))
        .message(Message::text(Role::User, "Hello"));

    let built = Request::build(&request, &config()).unwrap();
    let messages = messages(&built);

    assert_eq!(messages[0]["role"], "system");
    assert_eq!(messages[0]["content"], "Be concise");
    assert_eq!(messages[1]["role"], "user");
    assert_eq!(built.model, "test-model");
}

#[test]
fn maps_developer_onto_system_for_portability() {
    let request = GenerateRequest::new().message(Message::text(Role::Developer, "Rules"));

    let built = Request::build(&request, &config()).unwrap();

    assert_eq!(messages(&built)[0]["role"], "system");
}

#[test]
fn chat_omits_capabilities_the_caller_did_not_ask_for() {
    let request = GenerateRequest::new().message(Message::text(Role::User, "Hello"));

    let built = Request::build(&request, &config()).unwrap();

    assert!(built.tools.is_empty());
    assert!(built.tool_choice.is_none());
    assert!(built.reasoning_effort.is_none());
    assert!(built.response_format.is_none());
    assert!(built.max_tokens.is_none());
}

#[test]
fn chat_maps_a_full_tool_round_trip() {
    let request = GenerateRequest::new()
        .message(Message::text(Role::User, "What is 20 + 22?"))
        .message(Message::new(
            Role::Assistant,
            vec![
                InputContent::Text("Let me add those.".to_string()),
                InputContent::ToolCall {
                    id: "call_1".to_string(),
                    name: "add".to_string(),
                    arguments: "{\"a\":20,\"b\":22}".to_string(),
                },
            ],
        ))
        .message(Message::tool_result("call_1", "42"));

    let built = Request::build(&request, &config()).unwrap();
    let messages = messages(&built);

    assert_eq!(messages.len(), 3);
    assert_eq!(messages[1]["role"], "assistant");
    assert_eq!(messages[1]["content"], "Let me add those.");
    assert_eq!(messages[1]["tool_calls"][0]["id"], "call_1");
    assert_eq!(messages[1]["tool_calls"][0]["type"], "function");
    assert_eq!(messages[1]["tool_calls"][0]["function"]["name"], "add");
    assert_eq!(messages[1]["tool_calls"][0]["function"]["arguments"], "{\"a\":20,\"b\":22}");

    assert_eq!(messages[2]["role"], "tool");
    assert_eq!(messages[2]["tool_call_id"], "call_1");
    assert_eq!(messages[2]["content"], "42");
}

#[test]
fn sends_null_content_for_a_tool_only_assistant_turn() {
    let request = GenerateRequest::new().message(Message::new(
        Role::Assistant,
        vec![InputContent::ToolCall {
            id: "call_1".to_string(),
            name: "add".to_string(),
            arguments: "{}".to_string(),
        }],
    ));

    let built = Request::build(&request, &config()).unwrap();
    let messages = messages(&built);

    assert!(messages[0].get("content").is_some());
    assert!(messages[0]["content"].is_null());
}

#[test]
fn uses_the_parts_array_only_when_an_image_is_present() {
    let text_only = GenerateRequest::new().message(Message::text(Role::User, "Hello"));
    let built = Request::build(&text_only, &config()).unwrap();
    assert!(messages(&built)[0]["content"].is_string());

    let with_image = GenerateRequest::new().message(Message::new(
        Role::User,
        vec![
            InputContent::Text("What is this?".to_string()),
            InputContent::ImageUrl("https://example.com/cat.png".to_string()),
        ],
    ));
    let built = Request::build(&with_image, &config()).unwrap();
    let content = &messages(&built)[0]["content"];
    assert!(content.is_array());
    assert_eq!(content[0]["type"], "text");
    assert_eq!(content[1]["type"], "image_url");
    assert_eq!(content[1]["image_url"]["url"], "https://example.com/cat.png");
}

#[test]
fn drops_reasoning_blocks_carried_from_another_dialect() {
    let request = GenerateRequest::new().message(Message::new(
        Role::Assistant,
        vec![
            InputContent::Reasoning {
                data: Json::parse(r#"{"type": "thinking", "signature": "sig"}"#).unwrap(),
            },
            InputContent::Text("Hello".to_string()),
        ],
    ));

    let built = Request::build(&request, &config()).unwrap();

    assert_eq!(messages(&built)[0]["content"], "Hello");
}

#[test]
fn chat_refuses_capabilities_it_cannot_express() {
    let request = GenerateRequest::new().previous_response_id("chatcmpl-1");

    assert!(matches!(
        Request::build(&request, &config()),
        Err(ProviderError::UnsupportedCapability { .. })
    ));
}

#[test]
fn rejects_a_tool_message_answering_two_calls() {
    let request = GenerateRequest::new().message(Message::new(
        Role::Tool,
        vec![
            InputContent::ToolResult { call_id: "call_1".to_string(), output: "1".to_string() },
            InputContent::ToolResult { call_id: "call_2".to_string(), output: "2".to_string() },
        ],
    ));

    assert!(matches!(Request::build(&request, &config()), Err(ProviderError::InvalidRequest { .. })));
}

#[test]
fn streaming_asks_for_usage() {
    let request = GenerateRequest::new().message(Message::text(Role::User, "Hello"));
    let built = Request::build(&request, &config()).unwrap().streaming();

    assert_eq!(built.stream, Some(true));
    assert_eq!(value(built.stream_options.as_ref().unwrap()), serde_json::from_str::<Value>(r#"{"include_usage":true}"#).unwrap());
}

fn text_choice(content: Option<&str>, refusal: Option<&str>, reason: Option<&str>) -> Choice {
    Choice {
        message: ChoiceMessage {
            content: content.map(str::to_string),
            refusal: refusal.map(str::to_string),
            tool_calls: Vec::new(),
        },
        finish_reason: reason.map(str::to_string),
    }
}

#[test]
fn normalizes_a_chat_completion() {
    let wire = Response {
        id: "chatcmpl-1".to_string(),
        model: "deepseek-chat".to_string(),
        choices: vec![text_choice(Some("hello"), None, Some("stop"))],
        usage: Some(ResponseUsage { prompt_tokens: 2, completion_tokens: 1, total_tokens: 3 }),
        extra: vec![("object".to_string(), Json::parse("\"chat.completion\"").unwrap())],
    };

    let response = GenerateResponse::from(wire);

    assert_eq!(response.output_text(), "hello");
    assert_eq!(response.status, ResponseStatus::Completed);
    assert_eq!(response.usage.unwrap().total_tokens, 3);
    assert_eq!(value(response.provider_metadata.as_ref().unwrap())["object"], "chat.completion");
}

#[test]
fn a_response_without_choices_says_so() {
    let wire = Response {
        id: "chatcmpl-1".to_string(),
        model: "m".to_string(),
        choices: Vec::new(),
        usage: None,
        extra: Vec::new(),
    };

    let response = GenerateResponse::from(wire);

    assert_eq!(response.status, ResponseStatus::Completed);
    assert!(response.content.is_empty());
    assert!(value(response.provider_metadata.as_ref().unwrap())["freya_note"].is_string());
}

fn follow_up_config() -> ProviderConfig {
    config()
}

#[test]
fn chat_round_trips_a_tool_call_back_into_a_request() {
    let wire = Response {
        id: "chatcmpl-1".to_string(),
        model: "deepseek-chat".to_string(),
        choices: vec![Choice {
            message: ChoiceMessage {
                content: None,
                refusal: None,
                tool_calls: vec![ResponseToolCall {
                    id: "call_1".to_string(),
                    function: ResponseFunction {
                        name: "add".to_string(),
                        arguments: "{\"a\":20,\"b\":22}".to_string(),
                    },
                }],
            },
            finish_reason: Some("tool_calls".to_string()),
        }],
        usage: None,
        extra: Vec::new(),
    };

    let response = GenerateResponse::from(wire);
    assert_eq!(response.status, ResponseStatus::RequiresAction);
    assert_eq!(response.tool_calls(), vec![("call_1", "add", "{\"a\":20,\"b\":22}")]);

    let follow_up = GenerateRequest::new()
        .message(Message::text(Role::User, "What is 20 + 22?"))
        .message(response.to_message())
        .message(Message::tool_result("call_1", "42"));

    let built = Request::build(&follow_up, &follow_up_config()).unwrap();
    let messages = messages(&built);

    assert_eq!(messages.len(), 3);
    assert_eq!(messages[1]["tool_calls"][0]["id"], "call_1");
    assert_eq!(messages[2]["role"], "tool");
    assert_eq!(messages[2]["tool_call_id"], "call_1");
}

#[test]
fn maps_finish_reasons() {
    let cases = [
        (Some("stop"), ResponseStatus::Completed),
        (Some("length"), ResponseStatus::Incomplete),
        (Some("tool_calls"), ResponseStatus::RequiresAction),
        (Some("function_call"), ResponseStatus::RequiresAction),
        (None, ResponseStatus::Completed),
        (Some("content_filter"), ResponseStatus::Other("content_filter".to_string())),
    ];

    for (wire, expected) in cases {
        assert_eq!(parse_finish_reason(wire.map(String::from)), expected);
    }
}

#[test]
fn carries_a_refusal_through() {
    let wire = Response {
        id: "chatcmpl-1".to_string(),
        model: "gpt-test".to_string(),
        choices: vec![text_choice(None, Some("I cannot help"), Some("stop"))],
        usage: None,
        extra: Vec::new(),
    };

    let response = GenerateResponse::from(wire);

    assert_eq!(response.content, vec![OutputContent::Refusal("I cannot help".to_string())]);
    assert_eq!(response.output_text(), "");
}

fn decode_all(frames: &[&str]) -> Vec<RawDelta> {
    let mut decoder = Decoder;
    let mut out = Vec::new();
    for data in frames {
        let frame = SseFrame { event: None, data: (*data).to_string() };
        decoder.decode(&frame, "test-endpoint", &mut out).expect("decodes");
    }
    out
}

#[test]
fn chat_decodes_streaming_text() {
    let deltas = decode_all(&[
        r#"{"id":"chatcmpl-1","model":"gpt-4o","choices":[{"delta":{"content":"Hel"}}]}"#,
        r#"{"id":"chatcmpl-1","model":"gpt-4o","choices":[{"delta":{"content":"lo"}}]}"#,
        "[DONE]",
    ]);

    assert!(deltas.iter().any(|d| *d == RawDelta::Text("Hel".to_string())), "{deltas:?}");
    assert!(deltas.iter().any(|d| *d == RawDelta::Text("lo".to_string())), "{deltas:?}");
    assert!(
        !deltas.iter().any(|d| matches!(d, RawDelta::Text(t) if t == "[DONE]")),
        "the sentinel must not become text: {deltas:?}"
    );
}

#[test]
fn chat_decodes_streaming_tool_call() {
    let deltas = decode_all(&[
        r#"{"choices":[{"delta":{"tool_calls":[{"index":0,"id":"call_abc","function":{"name":"get_weather","arguments":""}}]}}]}"#,
        r#"{"choices":[{"delta":{"tool_calls":[{"index":0,"function":{"arguments":"{\"loc"}}]}}]}"#,
        r#"{"choices":[{"delta":{"tool_calls":[{"index":0,"function":{"arguments":"ation\":\"NYC\"}"}}]}}]}"#,
    ]);

    assert_eq!(
        deltas,
        vec![
            RawDelta::ToolStart { slot: 0, id: "call_abc".to_string(), name: "get_weather".to_string() },
            RawDelta::ToolArgs { slot: 0, fragment: "{\"loc".to_string() },
            RawDelta::ToolArgs { slot: 0, fragment: "ation\":\"NYC\"}".to_string() },
        ],
        "this dialect never ends a call; the assembler flushes at close"
    );
}

#[test]
fn decodes_streaming_usage_and_finish_reason() {
    let deltas = decode_all(&[
        r#"{"id":"chatcmpl-1","model":"gpt-4o","choices":[{"delta":{},"finish_reason":"stop"}]}"#,
        r#"{"id":"chatcmpl-1","model":"gpt-4o","choices":[],"usage":{"prompt_tokens":11,"completion_tokens":9,"total_tokens":20}}"#,
    ]);

    let usage = deltas
        .iter()
        .find_map(|d| match d {
            RawDelta::Meta { usage: Some(usage), .. } => Some(*usage),
            _ => None,
        })
        .expect("usage arrives when stream_options.include_usage is set");
    assert_eq!(usage.total_tokens, 20);

    assert!(
        deltas
            .iter()
            .any(|d| matches!(d, RawDelta::Meta { status: Some(ResponseStatus::Completed), .. })),
        "{deltas:?}"
    );
}

#[test]
fn the_cap_goes_under_the_field_the_endpoint_reads() {
    let request = GenerateRequest::new().message(Message::text(Role::User, "Hello")).max_tokens(64);

    let classic = Request::build(&request, &config()).unwrap();
    assert_eq!(classic.max_tokens, Some(64));
    assert_eq!(classic.max_completion_tokens, None);

    let newer = config().token_limit_field(freyja::config::TokenLimitField::MaxCompletionTokens);
    let built = Request::build(&request, &newer).unwrap();
    assert_eq!(built.max_tokens, None);
    assert_eq!(built.max_completion_tokens, Some(64));
}

#[test]
fn a_streamed_function_call_finish_reads_as_the_parser_reads_it() {
    let deltas = decode_all(&[
        r#"{"id":"chatcmpl-1","model":"gpt-4o","choices":[{"delta":{},"finish_reason":"function_call"}]}"#,
    ]);
    assert_eq!(
        deltas,
        vec![RawDelta::Meta {
            id: Some("chatcmpl-1".to_string()),
            model: Some("gpt-4o".to_string()),
            status: Some(ResponseStatus::RequiresAction),
            usage: None,
            provider_metadata: None,
        }]
    );
    assert_eq!(parse_finish_reason(Some("function_call".to_string())), ResponseStatus::RequiresAction);
}
