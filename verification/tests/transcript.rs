use freyja::model::{InputContent, Message, Role};
use freyja::transcript::repair;

fn transcript() -> Vec<Message> {
    vec![
        Message::text(Role::System, "pinned"),
        Message::text(Role::User, "first"),
        Message::text(Role::User, "second"),
    ]
}

fn tool_call(id: &str) -> InputContent {
    InputContent::ToolCall { id: id.to_string(), name: "t".to_string(), arguments: "{}".to_string() }
}

fn call(id: &str) -> Message {
    Message::new(Role::Assistant, vec![tool_call(id)])
}

#[test]
fn drops_a_result_whose_call_is_gone() {
    let mut messages = vec![Message::tool_result("call_1", "out")];
    repair(&mut messages);
    assert!(messages.is_empty());
}

#[test]
fn keeps_a_result_whose_call_is_present() {
    let mut messages = vec![call("call_1"), Message::tool_result("call_1", "out")];
    let before = messages.clone();
    repair(&mut messages);
    assert_eq!(messages, before);
}

#[test]
fn drops_a_result_that_precedes_its_call() {
    let mut messages = vec![Message::tool_result("call_1", "out"), call("call_1")];
    repair(&mut messages);
    assert!(messages.is_empty());
}

#[test]
fn keeps_an_ordered_pair_beside_an_inverted_one() {
    let ordered = vec![call("call_1"), Message::tool_result("call_1", "out")];
    let mut messages = ordered.clone();
    messages.push(Message::tool_result("call_2", "out"));
    messages.push(call("call_2"));
    repair(&mut messages);
    assert_eq!(messages, ordered);
}

#[test]
fn drops_every_result_of_a_removed_parallel_turn() {
    let mut messages: Vec<Message> =
        ["a", "b", "c", "d", "e"].iter().map(|id| Message::tool_result(id, "out")).collect();
    repair(&mut messages);
    assert!(messages.is_empty());
}

#[test]
fn leaves_a_transcript_with_no_tools_alone() {
    let mut messages = transcript();
    let before = messages.clone();
    repair(&mut messages);
    assert_eq!(messages, before);
}

#[test]
fn drops_a_call_whose_result_is_gone() {
    let mut messages = vec![Message::text(Role::User, "go"), call("c1")];
    repair(&mut messages);
    assert_eq!(messages, vec![Message::text(Role::User, "go")]);
}

#[test]
fn dropping_a_call_keeps_the_text_beside_it() {
    let mut messages = vec![Message::new(
        Role::Assistant,
        vec![InputContent::Text("thinking".to_string()), tool_call("c1")],
    )];
    repair(&mut messages);
    assert_eq!(messages, vec![Message::text(Role::Assistant, "thinking")]);
}

#[test]
fn a_matched_call_and_result_survive() {
    let mut messages = vec![call("c1"), Message::tool_result("c1", "out")];
    let before = messages.clone();
    repair(&mut messages);
    assert_eq!(messages, before);
}

#[test]
fn drops_a_pair_separated_by_a_user_turn() {
    let mut messages = vec![call("c1"), Message::text(Role::User, "mid"), Message::tool_result("c1", "out")];
    repair(&mut messages);
    assert_eq!(messages, vec![Message::text(Role::User, "mid")]);
}

#[test]
fn drops_a_pair_separated_by_a_developer_turn() {
    let mut messages =
        vec![call("c1"), Message::text(Role::Developer, "mid"), Message::tool_result("c1", "out")];
    repair(&mut messages);
    assert_eq!(messages, vec![Message::text(Role::Developer, "mid")]);
}

#[test]
fn drops_a_pair_separated_by_an_assistant_turn() {
    let mut messages =
        vec![call("c1"), Message::text(Role::Assistant, "mid"), Message::tool_result("c1", "out")];
    repair(&mut messages);
    assert_eq!(messages, vec![Message::text(Role::Assistant, "mid")]);
}

#[test]
fn a_parallel_exchange_survives_untouched() {
    let calls = Message::new(Role::Assistant, vec![tool_call("a"), tool_call("b")]);
    let mut messages = vec![calls, Message::tool_result("a", "out"), Message::tool_result("b", "out")];
    let before = messages.clone();
    repair(&mut messages);
    assert_eq!(messages, before);
}

#[test]
fn repairing_twice_changes_nothing_more() {
    let mut messages = vec![
        Message::text(Role::User, "go"),
        call("c1"),
        Message::tool_result("c2", "out"),
        call("c3"),
        Message::tool_result("c3", "out"),
    ];
    repair(&mut messages);
    let once = messages.clone();
    repair(&mut messages);
    assert_eq!(messages, once);
    assert_eq!(once, vec![Message::text(Role::User, "go"), call("c3"), Message::tool_result("c3", "out")]);
}
