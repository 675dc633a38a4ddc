//! Condensing turns a window drops into a summary the model still sees.
//!
//! The turns are sent as one block of text rather than replayed as a
//! conversation: replayed, the model would answer the last turn instead of
//! summarizing, and every dialect's rules on turn order and tool pairing
//! would apply to a slice cut from the middle of a conversation.

use vstd::prelude::*;
use crate::error::ProviderError;
use crate::model::{
    GenerateRequest, GenerateResponse, InputContent, Message, ResponseStatus, Role, output_text_of,
};
use crate::sse::trim;
use crate::text::joined;

verus! {

/// The instruction sent when no prompt is given. It asks for facts rather
/// than prose: each item in a list is kept or dropped whole, and names and
/// numbers are what a later turn most often needs back.
pub const DEFAULT_PROMPT: &'static str = "You condense the earlier part of a conversation so it can continue without it. List the durable facts, decisions, user preferences and open tasks it contains, one per line. Keep names, numbers and identifiers exactly as written. Leave out greetings and anything a later turn replaced. Reply with the list only.";

/// How a summary is asked for: the model, the instruction and the cap.
#[derive(Debug, Clone, PartialEq, Eq)]
pub struct Summarizer {
    pub model: Option<String>,
    pub prompt: String,
    pub max_tokens: Option<u32>,
}

/// Who a part is attributed to in the rendered transcript.
pub open spec fn speaker(role: Role) -> Seq<char> {
    match role {
        Role::System | Role::Developer => "Instruction"@,
        Role::User => "User"@,
        Role::Assistant => "Assistant"@,
        Role::Tool => "Tool"@,
    }
}

/// The line one part renders as; reasoning state renders as none, since it
/// may be dropped but never summarized.
pub open spec fn part_line(who: Seq<char>, c: InputContent) -> Seq<Seq<char>> {
    match c {
        InputContent::Text(t) => seq![who + ": "@ + t@],
        InputContent::ImageUrl(_) => seq![who + ": [image]"@],
        InputContent::ToolCall { name, arguments, .. } => seq![who + " called "@ + name@ + " with "@ + arguments@],
        InputContent::ToolResult { output, .. } => seq![who + " result: "@ + output@],
        InputContent::Reasoning { .. } => Seq::empty(),
    }
}

pub open spec fn parts_lines(who: Seq<char>, cs: Seq<InputContent>) -> Seq<Seq<char>>
    decreases cs.len(),
{
    if cs.len() == 0 {
        Seq::empty()
    } else {
        parts_lines(who, cs.drop_last()) + part_line(who, cs.last())
    }
}

/// One line per part, in order.
pub open spec fn transcript_lines(ms: Seq<Message>) -> Seq<Seq<char>>
    decreases ms.len(),
{
    if ms.len() == 0 {
        Seq::empty()
    } else {
        transcript_lines(ms.drop_last()) + parts_lines(speaker(ms.last().role), ms.last().content@)
    }
}

fn speaker_text(role: Role) -> (r: &'static str)
    ensures
        r@ == speaker(role),
{
    match role {
        Role::System | Role::Developer => "Instruction",
        Role::User => "User",
        Role::Assistant => "Assistant",
        Role::Tool => "Tool",
    }
}

/// One line per part, so the summarizer reads a transcript instead of
/// taking part in one.
pub fn render(messages: &[Message]) -> (r: String)
    ensures
        r@ == joined(transcript_lines(messages@), "\n"@),
{
    let mut lines: Vec<String> = Vec::new();
    let mut i: usize = 0;
    assert(messages@.take(0) =~= Seq::<Message>::empty());
    assert(crate::text::strings_view(lines@) =~= Seq::<Seq<char>>::empty());
    while i < messages.len()
        invariant
            i <= messages@.len(),
            crate::text::strings_view(lines@) == transcript_lines(messages@.take(i as int)),
        decreases messages@.len() - i,
    {
        assert(messages@.take(i + 1).drop_last() == messages@.take(i as int));
        assert(messages@.take(i + 1).last() == messages@[i as int]);
        let message = &messages[i];
        let who = speaker_text(message.role);
        let ghost start = crate::text::strings_view(lines@);
        let mut j: usize = 0;
        assert(message.content@.take(0) =~= Seq::<InputContent>::empty());
        assert(start =~= start + parts_lines(who@, message.content@.take(0)));
        while j < message.content.len()
            invariant
                j <= message.content@.len(),
                who@ == speaker(message.role),
                crate::text::strings_view(lines@) == start + parts_lines(who@, message.content@.take(j as int)),
            decreases message.content@.len() - j,
        {
            assert(message.content@.take(j + 1).drop_last() == message.content@.take(j as int));
            assert(message.content@.take(j + 1).last() == message.content@[j as int]);
            let ghost before = crate::text::strings_view(lines@);
            let mut line = crate::text::owned(who);
            match &message.content[j] {
                InputContent::Text(text) => {
                    line.append(": ");
                    line.append(text.as_str());
                    lines.push(line);
                }
                InputContent::ImageUrl(_) => {
                    line.append(": [image]");
                    lines.push(line);
                }
                InputContent::ToolCall { name, arguments, .. } => {
                    line.append(" called ");
                    line.append(name.as_str());
                    line.append(" with ");
                    line.append(arguments.as_str());
                    lines.push(line);
                }
                InputContent::ToolResult { output, .. } => {
                    line.append(" result: ");
                    line.append(output.as_str());
                    lines.push(line);
                }
                InputContent::Reasoning { .. } => {}
            }
            assert(crate::text::strings_view(lines@) =~= before + part_line(who@, message.content@[j as int]));
            j = j + 1;
        }
        assert(message.content@.take(message.content@.len() as int) == message.content@);
        i = i + 1;
    }
    assert(messages@.take(messages@.len() as int) == messages@);
    crate::text::join(&lines, "\n")
}

/// Rust's debug rendering of a string: quoted, with `str::escape_debug`'s
/// escapes.
pub uninterp spec fn string_debug(s: Seq<char>) -> Seq<char>;

/// Renders a string through `format!("{:?}")`, that is `str`'s `Debug`;
/// the contract claims the result is what `string_debug` names for it.
#[verifier::external_body]
fn debug_text(s: &str) -> (r: String)
    ensures
        r@ == string_debug(s@),
{
    format!("{:?}", s)
}

/// A status as `{:?}` renders it.
pub open spec fn status_debug(s: ResponseStatus) -> Seq<char> {
    match s {
        ResponseStatus::Completed => "Completed"@,
        ResponseStatus::Incomplete => "Incomplete"@,
        ResponseStatus::RequiresAction => "RequiresAction"@,
        ResponseStatus::Failed => "Failed"@,
        ResponseStatus::Other(t) => "Other("@ + string_debug(t@) + ")"@,
    }
}

fn status_debug_exec(s: &ResponseStatus) -> (r: String)
    ensures
        r@ == status_debug(*s),
{
    match s {
        ResponseStatus::Completed => crate::text::owned("Completed"),
        ResponseStatus::Incomplete => crate::text::owned("Incomplete"),
        ResponseStatus::RequiresAction => crate::text::owned("RequiresAction"),
        ResponseStatus::Failed => crate::text::owned("Failed"),
        ResponseStatus::Other(t) => {
            let mut out = crate::text::owned("Other(");
            out.append(debug_text(t.as_str()).as_str());
            out.append(")");
            out
        }
    }
}

/// What precedes the status in the complaint about an unfinished summary.
pub const UNFINISHED: &'static str = "summary unfinished: ";

/// The complaint about a summary with no text.
pub const EMPTY_SUMMARY: &'static str = "summary was empty";

impl Summarizer {
    /// The default prompt, the endpoint's default model, and no cap.
    pub fn new() -> (r: Self)
        ensures
            r.model is None,
            r.prompt@ == DEFAULT_PROMPT@,
            r.max_tokens is None,
    {
        Summarizer { model: None, prompt: crate::text::owned(DEFAULT_PROMPT), max_tokens: None }
    }

    /// The model to summarize with.
    pub fn model(self, model: &str) -> (r: Self)
        ensures
            r.model matches Some(m) && m@ == model@,
            r.prompt == self.prompt,
            r.max_tokens == self.max_tokens,
    {
        Summarizer { model: Some(crate::text::owned(model)), ..self }
    }

    /// Replaces the instruction the summarizer is given.
    pub fn prompt(self, prompt: &str) -> (r: Self)
        ensures
            r.prompt@ == prompt@,
            r.model == self.model,
            r.max_tokens == self.max_tokens,
    {
        Summarizer { prompt: crate::text::owned(prompt), ..self }
    }

    /// Caps how long the summary may be. A summary reaching the cap comes
    /// back unfinished, and is refused rather than returned by half.
    pub fn max_tokens(self, max_tokens: u32) -> (r: Self)
        ensures
            r == (Summarizer { max_tokens: Some(max_tokens), ..self }),
    {
        Summarizer { max_tokens: Some(max_tokens), ..self }
    }

    /// The request that asks for a summary of `messages`: the instruction as
    /// a system turn, the rendered transcript as one user turn, and the
    /// summarizer's own model and cap. Nothing else carries over.
    pub fn request(&self, messages: &[Message]) -> (r: GenerateRequest)
        ensures
            r.messages@.len() == 2,
            r.messages@[0].role == Role::System,
            r.messages@[0].content@ =~= seq![InputContent::Text(r.messages@[0].content@[0]->Text_0)],
            r.messages@[0].content@[0]->Text_0@ == self.prompt@,
            r.messages@[1].role == Role::User,
            r.messages@[1].content@ =~= seq![InputContent::Text(r.messages@[1].content@[0]->Text_0)],
            r.messages@[1].content@[0]->Text_0@ == joined(transcript_lines(messages@), "\n"@),
            (match r.model { Some(m) => Some(m@), None => None }) == (match self.model { Some(m) => Some(m@), None => None }),
            r.max_tokens == self.max_tokens,
            r.temperature is None && r.top_p is None && r.reasoning_effort is None,
            r.response_format is None && r.tools@.len() == 0 && r.tool_choice is None,
            r.previous_response_id is None && r.metadata is None,
    {
        let mut request = GenerateRequest::new()
            .message(Message::text(Role::System, self.prompt.as_str()))
            .message(Message::text(Role::User, render(messages).as_str()));
        match &self.model {
            Some(model) => {
                request = request.model(model.as_str());
            }
            None => {}
        }
        match self.max_tokens {
            Some(limit) => {
                request = request.max_tokens(limit);
            }
            None => {}
        }
        request
    }
}

/// The summary a response carries, or why it cannot serve as one: a reply
/// that stopped before finishing, or that finished with no text.
pub fn accept(provider: &str, response: &GenerateResponse) -> (r: Result<String, ProviderError>)
    ensures
        response.status != ResponseStatus::Completed ==> (r matches Err(ProviderError::InvalidResponse { provider: p, message })
            && p@ == provider@ && message@ == UNFINISHED@ + status_debug(response.status)),
        response.status == ResponseStatus::Completed && trim(output_text_of(response.content@)).len() == 0
            ==> (r matches Err(ProviderError::InvalidResponse { provider: p, message })
            && p@ == provider@ && message@ == EMPTY_SUMMARY@),
        response.status == ResponseStatus::Completed && trim(output_text_of(response.content@)).len() > 0
            ==> (r matches Ok(s) && s@ == output_text_of(response.content@)),
{
    let completed = match response.status {
        ResponseStatus::Completed => true,
        _ => false,
    };
    if !completed {
        let mut message = crate::text::owned(UNFINISHED);
        message.append(status_debug_exec(&response.status).as_str());
        return Err(ProviderError::InvalidResponse { provider: crate::text::owned(provider), message });
    }
    let summary = response.output_text();
    if crate::sse::trim_text(summary.as_str()).as_str().is_empty() {
        return Err(ProviderError::InvalidResponse {
            provider: crate::text::owned(provider),
            message: crate::text::owned(EMPTY_SUMMARY),
        });
    }
    Ok(summary)
}

} // verus!
