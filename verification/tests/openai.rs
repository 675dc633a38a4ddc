use freyja::openai::{
    FunctionCallRef, InputContent, InputMessage, OutputContent, Reasoning, ReasoningEffort,
    Response, ResponseInput, ResponseOutput, ResponseRequest, ResponseType, Role, TextConfig,
    TextFormat, DEFAULT_MODEL,
};

fn response_with(output: Vec<ResponseOutput>) -> Response {
    Response {
        id: "response-id".to_string(),
        object: "response".to_string(),
        created_at: 0,
        status: "completed".to_string(),
        model: DEFAULT_MODEL.to_string(),
        output,
        usage: None,
        error: None,
        metadata: None,
    }
}

#[test]
fn collects_text_and_refusals() {
    let response = response_with(vec![ResponseOutput::Message {
        id: "message-id".to_string(),
        role: "assistant".to_string(),
        content: vec![
            OutputContent::Text { text: "Hello, ".to_string() },
            OutputContent::Text { text: "world!".to_string() },
            OutputContent::Refusal { refusal: "Cannot do that".to_string() },
        ],
    }]);

    assert_eq!(response.output_text(), "Hello, world!");
    assert_eq!(response.refusals(), ["Cannot do that"]);
    assert!(response.is_success());
}

#[test]
fn exposes_guard_methods_and_matchable_items() {
    let response = response_with(vec![
        ResponseOutput::Message {
            id: "message-id".to_string(),
            role: "assistant".to_string(),
            content: vec![OutputContent::Text { text: "Hello".to_string() }],
        },
        ResponseOutput::FunctionCall {
            id: "item-id".to_string(),
            call_id: "call-id".to_string(),
            name: "do_work".to_string(),
            arguments: "{}".to_string(),
        },
    ]);

    assert!(response.has_text_output());
    assert!(!response.has_refusals());
    assert!(response.has_function_calls());
    assert_eq!(response.output_text_opt().as_deref(), Some("Hello"));

    let item_names = response
        .items()
        .iter()
        .map(|item| match item {
            ResponseType::Text(_) => "text",
            ResponseType::Refusal(_) => "refusal",
            ResponseType::FunctionCall(_) => "function_call",
        })
        .collect::<Vec<_>>();

    assert_eq!(item_names, ["text", "function_call"]);
}

#[test]
fn function_calls_are_handed_out_by_reference() {
    let response = response_with(vec![ResponseOutput::FunctionCall {
        id: "item-id".to_string(),
        call_id: "call-id".to_string(),
        name: "get_weather".to_string(),
        arguments: r#"{"city":"Jakarta"}"#.to_string(),
    }]);

    let calls = response.function_calls();
    assert_eq!(
        calls,
        vec![FunctionCallRef {
            id: "item-id",
            call_id: "call-id",
            name: "get_weather",
            arguments: r#"{"city":"Jakarta"}"#,
        }]
    );
    assert!(response.output_text_opt().is_none());
    assert!(response.text_outputs().is_empty());
}

#[test]
fn a_failed_response_is_no_success() {
    let mut response = response_with(Vec::new());
    response.status = "failed".to_string();
    assert!(!response.is_success());
}

#[test]
fn a_request_starts_from_the_default_model() {
    let request = ResponseRequest::new()
        .input(ResponseInput::from("Hi"))
        .instructions("Be brief")
        .max_output_tokens(64)
        .reasoning(ReasoningEffort::Low)
        .text_format(TextFormat::json_object());

    assert_eq!(request.model, DEFAULT_MODEL);
    assert_eq!(request.input, Some(ResponseInput::Text("Hi".to_string())));
    assert_eq!(request.instructions.as_deref(), Some("Be brief"));
    assert_eq!(request.max_output_tokens, Some(64));
    assert_eq!(request.reasoning, Some(Reasoning { effort: ReasoningEffort::Low }));
    assert_eq!(request.text, Some(TextConfig { format: TextFormat::JsonObject }));
}

#[test]
fn messages_carry_their_parts() {
    let message = InputMessage::new(
        Role::User,
        vec![InputContent::text("look"), InputContent::image("https://e.test/a.png")],
    );
    assert_eq!(message.content[0], InputContent::Text { text: "look".to_string() });
    assert_eq!(message.content[1], InputContent::Image { image_url: "https://e.test/a.png".to_string() });

    let plain = InputMessage::text(Role::Developer, "rules");
    assert_eq!(plain.content, vec![InputContent::Text { text: "rules".to_string() }]);

    let input = ResponseInput::from(vec![plain.clone()]);
    assert_eq!(input, ResponseInput::Messages(vec![plain]));
}
