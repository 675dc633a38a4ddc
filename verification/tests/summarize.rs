use freyja::error::ProviderError;
use freyja::json::Json;
use freyja::model::{GenerateResponse, InputContent, Message, OutputContent, ResponseStatus, Role};
use freyja::summarize::{accept, render, Summarizer, DEFAULT_PROMPT};

fn dropped() -> Vec<Message> {
    vec![
        Message::text(Role::User, "Plan three days in Bergen."),
        Message::new(
            Role::Assistant,
            vec![
                InputContent::Reasoning { data: Json::parse(r#"{ "signature": "REASONING-PAYLOAD" }"#).unwrap() },
                InputContent::ToolCall {
                    id: "c1".to_string(),
                    name: "get_weather".to_string(),
                    arguments: r#"{"city":"Bergen"}"#.to_string(),
                },
            ],
        ),
        Message::tool_result("c1", "rain all week"),
    ]
}

fn reply(content: &str, status: ResponseStatus) -> GenerateResponse {
    GenerateResponse {
        id: "x".to_string(),
        model: "test-model".to_string(),
        status,
        content: vec![OutputContent::Text(content.to_string())],
        usage: None,
        provider_metadata: None,
    }
}

#[test]
fn sends_one_transcript_under_its_own_instruction() {
    let request = Summarizer::new().model("test-model").request(&dropped());

    assert_eq!(request.messages.len(), 2);
    assert_eq!(request.messages[0].role, Role::System);
    assert_eq!(request.messages[0].content, vec![InputContent::Text(DEFAULT_PROMPT.to_string())]);
    assert_eq!(request.messages[1].role, Role::User);
    assert_eq!(request.model.as_deref(), Some("test-model"));

    let body = match &request.messages[1].content[0] {
        InputContent::Text(text) => text.clone(),
        other => panic!("expected the transcript as text, got {other:?}"),
    };
    assert!(body.contains("Plan three days in Bergen."));
    assert!(body.contains("get_weather"));
    assert!(body.contains("rain all week"));
    assert!(!body.contains("REASONING-PAYLOAD"));
}

#[test]
fn renders_one_line_per_part() {
    assert_eq!(
        render(&dropped()),
        "User: Plan three days in Bergen.\nAssistant called get_weather with {\"city\":\"Bergen\"}\nTool result: rain all week"
    );
    let mixed = vec![Message::new(
        Role::Developer,
        vec![InputContent::Text("rules".to_string()), InputContent::ImageUrl("https://e.test/a.png".to_string())],
    )];
    assert_eq!(render(&mixed), "Instruction: rules\nInstruction: [image]");
    assert_eq!(render(&[]), "");
}

#[test]
fn a_summarizer_carries_only_its_own_settings() {
    let summarizer = Summarizer::new().prompt("Be brief.").max_tokens(200);
    let request = summarizer.request(&[Message::text(Role::User, "hi")]);

    assert_eq!(request.messages[0].content, vec![InputContent::Text("Be brief.".to_string())]);
    assert_eq!(request.max_tokens, Some(200));
    assert!(request.model.is_none());
    assert!(request.tools.is_empty());
    assert!(request.reasoning_effort.is_none());
}

#[test]
fn a_reply_it_cannot_use_is_an_error_not_a_summary() {
    match accept("local", &reply("- Three days in", ResponseStatus::Incomplete)) {
        Err(ProviderError::InvalidResponse { provider, message }) => {
            assert_eq!(provider, "local");
            assert_eq!(message, "summary unfinished: Incomplete");
        }
        other => panic!("expected a refusal, got {other:?}"),
    }

    match accept("local", &reply("", ResponseStatus::Completed)) {
        Err(ProviderError::InvalidResponse { message, .. }) => assert_eq!(message, "summary was empty"),
        other => panic!("expected a refusal, got {other:?}"),
    }

    match accept("local", &reply("  \n", ResponseStatus::Completed)) {
        Err(ProviderError::InvalidResponse { message, .. }) => assert_eq!(message, "summary was empty"),
        other => panic!("expected a refusal, got {other:?}"),
    }

    match accept("local", &reply("x", ResponseStatus::Other("content_filter".to_string()))) {
        Err(ProviderError::InvalidResponse { message, .. }) => {
            assert_eq!(message, "summary unfinished: Other(\"content_filter\")")
        }
        other => panic!("expected a refusal, got {other:?}"),
    }
}

#[test]
fn a_finished_reply_is_the_summary() {
    assert_eq!(
        accept("local", &reply("- Three days in Bergen, rain all week", ResponseStatus::Completed)).unwrap(),
        "- Three days in Bergen, rain all week"
    );
}
