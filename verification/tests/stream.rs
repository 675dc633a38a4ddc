use freyja::config::ProviderDialect;
use freyja::error::ProviderError;
use freyja::events::{Next, StreamState};
use freyja::model::{GenerateResponse, OutputContent, ResponseStatus, Usage};
use freyja::provider::StreamDecoder;
use freyja::stream::{Assembler, RawDelta, StreamEvent};

fn meta(status: ResponseStatus, usage: Option<Usage>) -> RawDelta {
    RawDelta::Meta {
        id: Some("resp_1".to_string()),
        model: Some("test-model".to_string()),
        status: Some(status),
        usage,
        provider_metadata: None,
    }
}

fn finished(mut assembler: Assembler) -> GenerateResponse {
    let mut out = Vec::new();
    assembler.close(&mut out);
    assembler.into_response().expect("closed")
}

fn start(slot: usize, id: &str, name: &str) -> RawDelta {
    RawDelta::ToolStart { slot, id: id.to_string(), name: name.to_string() }
}

fn args(slot: usize, fragment: &str) -> RawDelta {
    RawDelta::ToolArgs { slot, fragment: fragment.to_string() }
}

fn call(id: &str, name: &str, arguments: &str) -> StreamEvent {
    StreamEvent::ToolCall { id: id.to_string(), name: name.to_string(), arguments: arguments.to_string() }
}

fn event_is_comparable() {
    let delta = StreamEvent::TextDelta("hi".to_string());
    assert_eq!(delta, StreamEvent::TextDelta("hi".to_string()));
    assert_ne!(delta, StreamEvent::TextDelta("bye".to_string()));

    let call = call("call_1", "add", "{\"a\":1}");
    assert_ne!(call, delta);
}

#[test]
fn stream_event_is_non_exhaustive_and_comparable() {
    event_is_comparable();
}

#[test]
fn assembler_event_is_non_exhaustive_and_comparable() {
    event_is_comparable();
}

fn coalesces_text(normalize: bool) {
    let mut assembler = Assembler::new("acme", normalize);
    let mut out = Vec::new();

    assembler.absorb(RawDelta::Text("a".to_string()), &mut out);
    assembler.absorb(RawDelta::Text("b".to_string()), &mut out);
    assembler.absorb(meta(ResponseStatus::Completed, None), &mut out);

    assert_eq!(
        out,
        vec![StreamEvent::TextDelta("a".to_string()), StreamEvent::TextDelta("b".to_string())],
        "metadata produces no event of its own"
    );

    // Deltas are separate events but one content part, matching generate().
    let response = finished(assembler);
    assert_eq!(response.content, vec![OutputContent::Text("ab".to_string())]);
    assert_eq!(response.id, "resp_1");
    assert_eq!(response.model, "test-model");
}

#[test]
fn stream_assembler_coalesces_text() {
    coalesces_text(false);
}

#[test]
fn assembler_assembler_coalesces_text() {
    coalesces_text(false);
}

#[test]
fn assembler_keeps_text_blocks_separate() {
    let mut assembler = Assembler::new("acme", false);
    let mut out = Vec::new();

    assembler.absorb(RawDelta::Text("A".to_string()), &mut out);
    assembler.absorb(RawDelta::Text("a".to_string()), &mut out);
    assembler.absorb(RawDelta::TextEnd, &mut out);
    assembler.absorb(RawDelta::Text("B".to_string()), &mut out);
    assembler.absorb(RawDelta::TextEnd, &mut out);

    assert_eq!(
        out,
        vec![
            StreamEvent::TextDelta("A".to_string()),
            StreamEvent::TextDelta("a".to_string()),
            StreamEvent::TextDelta("B".to_string()),
        ],
        "the boundary is internal bookkeeping and produces no event"
    );
    assert_eq!(
        finished(assembler).content,
        vec![OutputContent::Text("Aa".to_string()), OutputContent::Text("B".to_string())],
        "deltas within a block coalesce, but a block boundary starts a new part"
    );
}

fn assembles_fragmented_arguments() {
    let mut assembler = Assembler::new("acme", false);
    let mut out = Vec::new();

    assembler.absorb(start(0, "call_1", "get_weather"), &mut out);
    assembler.absorb(args(0, "{\"loc"), &mut out);
    assembler.absorb(args(0, "ation\":\"NYC\"}"), &mut out);

    assert!(out.is_empty(), "nothing is emitted until the call ends");

    assembler.absorb(RawDelta::ToolEnd { slot: 0 }, &mut out);

    assert_eq!(out, vec![call("call_1", "get_weather", "{\"location\":\"NYC\"}")]);
}

#[test]
fn stream_assembler_assembles_fragmented_arguments() {
    assembles_fragmented_arguments();
}

#[test]
fn assembler_assembler_assembles_fragmented_arguments() {
    assembles_fragmented_arguments();
}

#[test]
fn assembler_normalizes_an_argumentless_call() {
    let mut assembler = Assembler::new("acme", false);
    let mut out = Vec::new();

    assembler.absorb(start(0, "call_1", "get_current_time"), &mut out);
    assembler.absorb(RawDelta::ToolEnd { slot: 0 }, &mut out);

    assert_eq!(out, vec![call("call_1", "get_current_time", "{}")]);
}

#[test]
fn assembler_puts_arguments_in_canonical_form_when_asked() {
    let mut assembler = Assembler::new("acme", true);
    let mut out = Vec::new();

    assembler.absorb(start(0, "call_1", "f"), &mut out);
    assembler.absorb(args(0, "{\"b\": 1, \"a\": 2}"), &mut out);
    assembler.absorb(RawDelta::ToolEnd { slot: 0 }, &mut out);
    assembler.absorb(start(1, "call_2", "g"), &mut out);
    assembler.absorb(args(1, "not json"), &mut out);
    assembler.absorb(RawDelta::ToolEnd { slot: 1 }, &mut out);

    assert_eq!(
        out,
        vec![call("call_1", "f", "{\"a\":2,\"b\":1}"), call("call_2", "g", "not json")],
        "sorted keys when the body parses, left as sent when it does not"
    );
}

#[test]
fn assembler_replace_overrides_what_was_buffered() {
    let mut assembler = Assembler::new("acme", false);
    let mut out = Vec::new();

    assembler.absorb(start(3, "call_1", "f"), &mut out);
    assembler.absorb(args(3, "{\"par"), &mut out);
    assembler.absorb(RawDelta::ToolReplace { slot: 3, arguments: "{\"x\":1}".to_string() }, &mut out);
    assembler.absorb(RawDelta::ToolEnd { slot: 3 }, &mut out);
    // A slot with no call pending means nothing.
    assembler.absorb(RawDelta::ToolEnd { slot: 3 }, &mut out);

    assert_eq!(out, vec![call("call_1", "f", "{\"x\":1}")]);
}

fn keeps_concurrent_calls_apart() {
    let mut assembler = Assembler::new("acme", false);
    let mut out = Vec::new();

    for (slot, id, name) in [(0, "call_a", "alpha"), (1, "call_b", "beta")] {
        assembler.absorb(start(slot, id, name), &mut out);
    }
    assembler.absorb(args(0, "{\"a\":"), &mut out);
    assembler.absorb(args(1, "{\"b\":"), &mut out);
    assembler.absorb(args(0, "1}"), &mut out);
    assembler.absorb(args(1, "2}"), &mut out);
    assembler.absorb(RawDelta::ToolEnd { slot: 1 }, &mut out);
    assembler.absorb(RawDelta::ToolEnd { slot: 0 }, &mut out);

    assert_eq!(out, vec![call("call_b", "beta", "{\"b\":2}"), call("call_a", "alpha", "{\"a\":1}")]);
}

#[test]
fn stream_assembler_keeps_concurrent_calls_apart() {
    keeps_concurrent_calls_apart();
}

#[test]
fn assembler_assembler_keeps_concurrent_calls_apart() {
    keeps_concurrent_calls_apart();
}

fn flushes_unended_calls() {
    let mut assembler = Assembler::new("acme", false);
    let mut out = Vec::new();

    assembler.absorb(start(0, "call_1", "add"), &mut out);
    assembler.absorb(args(0, "{}"), &mut out);

    assembler.close(&mut out);

    assert_eq!(
        out,
        vec![
            call("call_1", "add", "{}"),
            StreamEvent::Done {
                id: String::new(),
                model: String::new(),
                status: ResponseStatus::Incomplete,
                usage: None,
            },
        ],
        "the call must be flushed before Done, and a stream with no terminal frame reports Incomplete"
    );
}

#[test]
fn stream_assembler_flushes_unended_calls() {
    flushes_unended_calls();
}

#[test]
fn assembler_assembler_flushes_unended_calls() {
    flushes_unended_calls();
}

#[test]
fn assembler_flushes_in_slot_order() {
    let mut assembler = Assembler::new("acme", false);
    let mut out = Vec::new();

    assembler.absorb(start(5, "call_5", "e"), &mut out);
    assembler.absorb(start(2, "call_2", "b"), &mut out);
    assembler.close(&mut out);

    assert_eq!(out[0], call("call_2", "b", "{}"));
    assert_eq!(out[1], call("call_5", "e", "{}"));
}

fn drains_a_recorded_body() {
    let mut stream = StreamState::new("acme", StreamDecoder::new(ProviderDialect::OpenAiChat));
    let mut chunks = vec![
        br#"data: {"id":"resp_1","model":"test-model","choices":[{"delta":{"content":"h"#.to_vec(),
        b"i\"}}]}\n\ndata: {\"id\":\"resp_1\",\"model\":\"test-model\",\"choices\":[{\"delta\":{},\"finish_reason\":\"stop\"}]}\n\ndata: [DONE]\n\n"
            .to_vec(),
    ]
    .into_iter();
    let mut events = Vec::new();
    loop {
        match stream.next_event().expect("event") {
            Next::Event(event) => events.push(event),
            Next::NeedBytes => match chunks.next() {
                Some(chunk) => stream.take(&chunk).expect("taken"),
                None => stream.finish(),
            },
            Next::End => break,
        }
    }

    assert_eq!(
        events,
        vec![
            StreamEvent::TextDelta("hi".to_string()),
            StreamEvent::Done {
                id: "resp_1".to_string(),
                model: "test-model".to_string(),
                status: ResponseStatus::Completed,
                usage: None,
            },
        ]
    );
    assert!(matches!(stream.next_event(), Ok(Next::End)), "the end is reported again, not an error");

    let response = stream.into_response().expect("drained");
    assert_eq!(response.output_text(), "hi");
    assert_eq!(response.model, "test-model");
}

#[test]
fn stream_event_stream_drains_a_recorded_body() {
    drains_a_recorded_body();
}

#[test]
fn assembler_event_stream_drains_a_recorded_body() {
    drains_a_recorded_body();
}

fn into_response_requires_a_drained_stream() {
    let mut assembler = Assembler::new("acme", false);
    let mut out = Vec::new();
    assembler.absorb(RawDelta::Text("hi".to_string()), &mut out);

    assert!(matches!(Assembler::new("acme", false).into_response(), Err(ProviderError::Stream { .. })));

    assembler.absorb(
        meta(ResponseStatus::Completed, Some(Usage { input_tokens: 1, output_tokens: 2, total_tokens: 3 })),
        &mut out,
    );
    assembler.close(&mut out);

    let response = assembler.into_response().expect("drained");
    assert_eq!(response.id, "resp_1");
    assert_eq!(response.model, "test-model");
    assert_eq!(response.status, ResponseStatus::Completed);
    assert_eq!(response.output_text(), "hi");
    assert_eq!(response.usage.expect("usage").total_tokens, 3);
}

#[test]
fn stream_assembler_into_response_requires_a_drained_stream() {
    into_response_requires_a_drained_stream();
}

#[test]
fn assembler_assembler_into_response_requires_a_drained_stream() {
    into_response_requires_a_drained_stream();
}

#[test]
fn a_stream_past_its_ceilings_is_abandoned() {
    let mut stream = StreamState::new("acme", StreamDecoder::new(ProviderDialect::OpenAiChat));
    let endless = vec![b'x'; 16 * 1024 * 1024 + 1];
    match stream.take(&endless) {
        Err(ProviderError::Stream { provider, message }) => {
            assert_eq!(provider, "acme");
            assert_eq!(message, "a single event grew past 16777216 bytes without ending");
        }
        other => panic!("expected the frame ceiling, got {other:?}"),
    }
}

#[test]
fn a_streamed_error_frame_fails_the_stream() {
    let mut stream = StreamState::new("gateway", StreamDecoder::new(ProviderDialect::Anthropic));
    stream
        .take(b"event: error\ndata: {\"error\":{\"type\":\"overloaded_error\",\"message\":\"Overloaded\"}}\n\n")
        .expect("taken");
    match stream.next_event() {
        Err(ProviderError::Stream { provider, .. }) => assert_eq!(provider, "gateway"),
        Err(other) => panic!("expected a stream error, got {other:?}"),
        Ok(_) => panic!("expected a stream error"),
    }
}
