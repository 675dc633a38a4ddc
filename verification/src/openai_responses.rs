//! The OpenAI Responses dialect: the request body, the response, and the
//! stream decoder.
//!
//! Input is a flat list of items: text and images accumulate into a message
//! item, while tool calls, tool results and replayed reasoning are items of
//! their own. System turns become `instructions`, and a conversation may be
//! continued server-side by `previous_response_id`.

use vstd::prelude::*;
use crate::text::joined;
use crate::config::{ProviderConfig, resolved_model, no_model_message};
use crate::error::ProviderError;
use crate::json::{
    Json, entry, object_of, json_array_from, json_canonical, json_from_string, json_object_from,
    json_opt_view, bool_text, elements_at, member, string_at, unsigned_at,
};
use crate::model::{
    GenerateRequest, GenerateResponse, InputContent, Message, OutputContent, PartView, ReasoningEffort,
    ResponseFormat, ResponseStatus, Role, StatusView, ToolChoice, ToolDefinition, Usage, effort_name,
    effort_text, part_view, status_view,
};
use crate::refusal::{unsupported, IMAGES_OUTSIDE_USER, NON_TEXT_SYSTEM};
use crate::sse::{SseFrame, event_name};
use crate::stream::{DeltaView, RawDelta, deltas_view, push_delta};

verus! {

/// The complaint about anything but a tool result in a tool turn.
pub const ONLY_RESULTS: &'static str = "tool messages may only contain tool results";

/// The body of a Responses request.
///
/// Input items are held as JSON; the two sampling controls are the bits of
/// the caller's `f32`.
#[derive(Debug, Clone, PartialEq, Eq)]
pub struct Request {
    pub model: String,
    pub input: Vec<Json>,
    pub instructions: Option<String>,
    pub max_output_tokens: Option<u32>,
    pub temperature: Option<u32>,
    pub top_p: Option<u32>,
    pub reasoning: Option<Json>,
    pub text: Option<Json>,
    pub tools: Vec<Json>,
    pub tool_choice: Option<Json>,
    pub previous_response_id: Option<String>,
    pub metadata: Option<Json>,
    pub stream: Option<bool>,
}

/// Why a transcript cannot be expressed in this dialect.
pub enum ResponsesFault {
    /// Something other than text in a system or developer turn.
    NonTextSystem,
    /// An image outside a user turn.
    Image,
    /// Text or images left over at the end of a tool turn.
    NotAResult,
}

/// The wire spelling of a role.
pub open spec fn role_name(role: Role) -> Seq<char> {
    match role {
        Role::System => "system"@,
        Role::Developer => "developer"@,
        Role::User => "user"@,
        Role::Assistant => "assistant"@,
        Role::Tool => "tool"@,
    }
}

/// A text part: assistant turns replayed as input use `output_text`.
pub open spec fn text_part(role: Role, t: Seq<char>) -> Seq<char> {
    json_object_from(seq![
        ("text"@, json_from_string(t)),
        ("type"@, json_from_string(if role == Role::Assistant { "output_text"@ } else { "input_text"@ })),
    ])
}

pub open spec fn image_part(url: Seq<char>) -> Seq<char> {
    json_object_from(seq![("image_url"@, json_from_string(url)), ("type"@, json_from_string("input_image"@))])
}

pub open spec fn call_item(id: Seq<char>, name: Seq<char>, arguments: Seq<char>) -> Seq<char> {
    json_object_from(seq![
        ("arguments"@, json_from_string(arguments)),
        ("call_id"@, json_from_string(id)),
        ("name"@, json_from_string(name)),
        ("type"@, json_from_string("function_call"@)),
    ])
}

pub open spec fn output_item(call_id: Seq<char>, output: Seq<char>) -> Seq<char> {
    json_object_from(seq![
        ("call_id"@, json_from_string(call_id)),
        ("output"@, json_from_string(output)),
        ("type"@, json_from_string("function_call_output"@)),
    ])
}

/// The items with the pending parts emitted as one message item, if any.
pub open spec fn flushed(items: Seq<Seq<char>>, role: Role, pending: Seq<Seq<char>>) -> Seq<Seq<char>> {
    if pending.len() == 0 {
        items
    } else {
        items.push(json_object_from(seq![
            ("content"@, json_array_from(pending)),
            ("role"@, json_from_string(role_name(role))),
            ("type"@, json_from_string("message"@)),
        ]))
    }
}

/// The items and pending parts after one more part of a turn.
pub open spec fn part_item(
    role: Role,
    st: Result<(Seq<Seq<char>>, Seq<Seq<char>>), ResponsesFault>,
    c: InputContent,
) -> Result<(Seq<Seq<char>>, Seq<Seq<char>>), ResponsesFault> {
    match st {
        Err(f) => Err(f),
        Ok((items, pending)) => match c {
            InputContent::Text(t) => Ok((items, pending.push(text_part(role, t@)))),
            InputContent::ImageUrl(u) => if role != Role::User {
                Err(ResponsesFault::Image)
            } else {
                Ok((items, pending.push(image_part(u@))))
            },
            InputContent::ToolCall { id, name, arguments } =>
                Ok((flushed(items, role, pending).push(call_item(id@, name@, arguments@)), Seq::empty())),
            InputContent::ToolResult { call_id, output } =>
                Ok((flushed(items, role, pending).push(output_item(call_id@, output@)), Seq::empty())),
            InputContent::Reasoning { data } =>
                Ok((flushed(items, role, pending).push(data@), Seq::empty())),
        },
    }
}

pub open spec fn parts_items(role: Role, items: Seq<Seq<char>>, cs: Seq<InputContent>) -> Result<(Seq<Seq<char>>, Seq<Seq<char>>), ResponsesFault>
    decreases cs.len(),
{
    if cs.len() == 0 {
        Ok((items, Seq::empty()))
    } else {
        part_item(role, parts_items(role, items, cs.drop_last()), cs.last())
    }
}

pub open spec fn system_texts(cs: Seq<InputContent>) -> Result<Seq<Seq<char>>, ResponsesFault>
    decreases cs.len(),
{
    if cs.len() == 0 {
        Ok(Seq::empty())
    } else {
        match system_texts(cs.drop_last()) {
            Err(f) => Err(f),
            Ok(prev) => match cs.last() {
                InputContent::Text(t) => Ok(prev.push(t@)),
                _ => Err(ResponsesFault::NonTextSystem),
            },
        }
    }
}

/// One user, assistant or tool turn's items, or its fault: a tool turn may
/// leave no text or image behind.
pub open spec fn turn_items(role: Role, items: Seq<Seq<char>>, cs: Seq<InputContent>) -> Result<Seq<Seq<char>>, ResponsesFault> {
    match parts_items(role, items, cs) {
        Err(f) => Err(f),
        Ok((s, pending)) => if role == Role::Tool && pending.len() > 0 {
            Err(ResponsesFault::NotAResult)
        } else {
            Ok(flushed(s, role, pending))
        },
    }
}

/// The instruction texts and input items of a transcript, or the first fault.
pub open spec fn transcript(ms: Seq<Message>) -> Result<(Seq<Seq<char>>, Seq<Seq<char>>), ResponsesFault>
    decreases ms.len(),
{
    if ms.len() == 0 {
        Ok((Seq::empty(), Seq::empty()))
    } else {
        match transcript(ms.drop_last()) {
            Err(f) => Err(f),
            Ok((instructions, items)) => {
                let m = ms.last();
                if m.role == Role::System || m.role == Role::Developer {
                    match system_texts(m.content@) {
                        Err(f) => Err(f),
                        Ok(t) => Ok((instructions + t, items)),
                    }
                } else {
                    match turn_items(m.role, items, m.content@) {
                        Err(f) => Err(f),
                        Ok(s) => Ok((instructions, s)),
                    }
                }
            },
        }
    }
}

pub open spec fn format_wire(f: ResponseFormat) -> Seq<char> {
    match f {
        ResponseFormat::Text => json_object_from(seq![("type"@, json_from_string("text"@))]),
        ResponseFormat::JsonObject => json_object_from(seq![("type"@, json_from_string("json_object"@))]),
        ResponseFormat::JsonSchema { name, schema, strict } => json_object_from(seq![
            ("name"@, json_from_string(name@)),
            ("schema"@, schema@),
            ("strict"@, bool_text(strict)),
            ("type"@, json_from_string("json_schema"@)),
        ]),
    }
}

pub open spec fn text_wire(f: ResponseFormat) -> Seq<char> {
    json_object_from(seq![("format"@, format_wire(f))])
}

pub open spec fn reasoning_wire(e: ReasoningEffort) -> Seq<char> {
    json_object_from(seq![("effort"@, json_from_string(effort_name(e)))])
}

pub open spec fn choice_wire(c: ToolChoice) -> Seq<char> {
    match c {
        ToolChoice::Auto => json_from_string("auto"@),
        ToolChoice::NoTools => json_from_string("none"@),
        ToolChoice::Required => json_from_string("required"@),
        ToolChoice::Named(name) => json_object_from(seq![
            ("name"@, json_from_string(name@)),
            ("type"@, json_from_string("function"@)),
        ]),
    }
}

pub open spec fn tool_members(t: ToolDefinition) -> Seq<(Seq<char>, Seq<char>)> {
    (match t.description { Some(d) => seq![("description"@, json_from_string(d@))], None => Seq::empty() })
    + seq![("name"@, json_from_string(t.name@)), ("parameters"@, t.parameters@)]
    + (match t.strict { Some(b) => seq![("strict"@, bool_text(b))], None => Seq::empty() })
    + seq![("type"@, json_from_string("function"@))]
}

pub open spec fn tool_wire(t: ToolDefinition) -> Seq<char> {
    json_object_from(tool_members(t))
}

pub open spec fn opt_chars(s: Option<String>) -> Option<Seq<char>> {
    match s {
        Some(t) => Some(t@),
        None => None,
    }
}

/// `request` is the body built from `value`, with this transcript and model.
pub open spec fn is_body(req: Request, value: GenerateRequest, instructions: Seq<Seq<char>>, items: Seq<Seq<char>>, model: Seq<char>) -> bool {
    &&& req.model@ == model
    &&& req.input@.map_values(|j: Json| j@) == items
    &&& opt_chars(req.instructions) == (if instructions.len() > 0 { Some(joined(instructions, "\n\n"@)) } else { None })
    &&& req.max_output_tokens == value.max_tokens
    &&& req.temperature == value.temperature
    &&& req.top_p == value.top_p
    &&& json_opt_view(req.reasoning) == match value.reasoning_effort { Some(e) => Some(reasoning_wire(e)), None => None }
    &&& json_opt_view(req.text) == match value.response_format { Some(f) => Some(text_wire(f)), None => None }
    &&& req.tools@.map_values(|j: Json| j@) == value.tools@.map_values(|t: ToolDefinition| tool_wire(t))
    &&& json_opt_view(req.tool_choice) == match value.tool_choice { Some(c) => Some(choice_wire(c)), None => None }
    &&& opt_chars(req.previous_response_id) == opt_chars(value.previous_response_id)
    &&& req.metadata == value.metadata
    &&& req.stream is None
}

/// A fault, as the error the request is refused with.
pub open spec fn fault_error(f: ResponsesFault, e: ProviderError, config: ProviderConfig) -> bool {
    match f {
        ResponsesFault::NonTextSystem => e == ProviderError::UnsupportedCapability { provider: config.name, capability: NON_TEXT_SYSTEM },
        ResponsesFault::Image => e == ProviderError::UnsupportedCapability { provider: config.name, capability: IMAGES_OUTSIDE_USER },
        ResponsesFault::NotAResult => e matches ProviderError::InvalidRequest { provider, message }
            && provider == config.name && message@ == ONLY_RESULTS@,
    }
}


fn role_text(role: Role) -> (r: &'static str)
    ensures
        r@ == role_name(role),
{
    match role {
        Role::System => "system",
        Role::Developer => "developer",
        Role::User => "user",
        Role::Assistant => "assistant",
        Role::Tool => "tool",
    }
}

fn flush_exec(items: &mut Vec<Json>, role: Role, pending: Vec<Json>)
    ensures
        final(items)@.map_values(|j: Json| j@) == flushed(old(items)@.map_values(|j: Json| j@), role, pending@.map_values(|j: Json| j@)),
{
    if pending.len() == 0 {
        return;
    }
    let ghost pv = pending@.map_values(|j: Json| j@);
    let e = vec![
        entry("content", Json::array(pending.as_slice())),
        entry("role", Json::string(role_text(role))),
        entry("type", Json::string("message")),
    ];
    assert(e@.map_values(|e: (String, Json)| (e.0@, e.1@)) =~= seq![
        ("content"@, json_array_from(pv)),
        ("role"@, json_from_string(role_name(role))),
        ("type"@, json_from_string("message"@)),
    ]);
    let ghost before = items@.map_values(|j: Json| j@);
    items.push(object_of(e));
    assert(items@.map_values(|j: Json| j@) =~= before.push(json_object_from(seq![
        ("content"@, json_array_from(pv)),
        ("role"@, json_from_string(role_name(role))),
        ("type"@, json_from_string("message"@)),
    ])));
}

fn turn_exec(role: Role, content: &Vec<InputContent>, items: &mut Vec<Json>, config: &ProviderConfig) -> (r: Result<(), ProviderError>)
    ensures
        match turn_items(role, old(items)@.map_values(|j: Json| j@), content@) {
            Ok(s) => r is Ok && final(items)@.map_values(|j: Json| j@) == s,
            Err(f) => r matches Err(e) && fault_error(f, e, *config),
        },
{
    let ghost start = items@.map_values(|j: Json| j@);
    let mut pending: Vec<Json> = Vec::new();
    let mut j: usize = 0;
    assert(content@.take(0) =~= Seq::<InputContent>::empty());
    assert(pending@.map_values(|j: Json| j@) =~= Seq::<Seq<char>>::empty());
    while j < content.len()
        invariant
            j <= content@.len(),
            start == old(items)@.map_values(|j: Json| j@),
            parts_items(role, start, content@.take(j as int))
                == Ok::<(Seq<Seq<char>>, Seq<Seq<char>>), ResponsesFault>((items@.map_values(|j: Json| j@), pending@.map_values(|j: Json| j@))),
        decreases content@.len() - j,
    {
        assert(content@.take(j + 1).drop_last() == content@.take(j as int));
        assert(content@.take(j + 1).last() == content@[j as int]);
        let ghost pv = pending@.map_values(|j: Json| j@);
        match &content[j] {
            InputContent::Text(t) => {
                let kind = if role == Role::Assistant { "output_text" } else { "input_text" };
                let e = vec![entry("text", Json::string(t.as_str())), entry("type", Json::string(kind))];
                assert(e@.map_values(|e: (String, Json)| (e.0@, e.1@)) =~= seq![
                    ("text"@, json_from_string(t@)),
                    ("type"@, json_from_string(if role == Role::Assistant { "output_text"@ } else { "input_text"@ })),
                ]);
                pending.push(object_of(e));
                assert(pending@.map_values(|j: Json| j@) =~= pv.push(text_part(role, t@)));
            }
            InputContent::ImageUrl(u) => {
                if role != Role::User {
                    proof { lemma_parts_fault_sticks(role, start, content@, j as int + 1); }
                    return Err(unsupported(config, IMAGES_OUTSIDE_USER));
                }
                let e = vec![entry("image_url", Json::string(u.as_str())), entry("type", Json::string("input_image"))];
                assert(e@.map_values(|e: (String, Json)| (e.0@, e.1@)) =~= seq![
                    ("image_url"@, json_from_string(u@)),
                    ("type"@, json_from_string("input_image"@)),
                ]);
                pending.push(object_of(e));
                assert(pending@.map_values(|j: Json| j@) =~= pv.push(image_part(u@)));
            }
            InputContent::ToolCall { id, name, arguments } => {
                flush_exec(items, role, pending);
                pending = Vec::new();
                let e = vec![
                    entry("arguments", Json::string(arguments.as_str())),
                    entry("call_id", Json::string(id.as_str())),
                    entry("name", Json::string(name.as_str())),
                    entry("type", Json::string("function_call")),
                ];
                assert(e@.map_values(|e: (String, Json)| (e.0@, e.1@)) =~= seq![
                    ("arguments"@, json_from_string(arguments@)),
                    ("call_id"@, json_from_string(id@)),
                    ("name"@, json_from_string(name@)),
                    ("type"@, json_from_string("function_call"@)),
                ]);
                let ghost mid = items@.map_values(|j: Json| j@);
                items.push(object_of(e));
                assert(items@.map_values(|j: Json| j@) =~= mid.push(call_item(id@, name@, arguments@)));
                assert(pending@.map_values(|j: Json| j@) =~= Seq::<Seq<char>>::empty());
            }
            InputContent::ToolResult { call_id, output } => {
                flush_exec(items, role, pending);
                pending = Vec::new();
                let e = vec![
                    entry("call_id", Json::string(call_id.as_str())),
                    entry("output", Json::string(output.as_str())),
                    entry("type", Json::string("function_call_output")),
                ];
                assert(e@.map_values(|e: (String, Json)| (e.0@, e.1@)) =~= seq![
                    ("call_id"@, json_from_string(call_id@)),
                    ("output"@, json_from_string(output@)),
                    ("type"@, json_from_string("function_call_output"@)),
                ]);
                let ghost mid = items@.map_values(|j: Json| j@);
                items.push(object_of(e));
                assert(items@.map_values(|j: Json| j@) =~= mid.push(output_item(call_id@, output@)));
                assert(pending@.map_values(|j: Json| j@) =~= Seq::<Seq<char>>::empty());
            }
            InputContent::Reasoning { data } => {
                flush_exec(items, role, pending);
                pending = Vec::new();
                let ghost mid = items@.map_values(|j: Json| j@);
                items.push(data.duplicate());
                assert(items@.map_values(|j: Json| j@) =~= mid.push(data@));
                assert(pending@.map_values(|j: Json| j@) =~= Seq::<Seq<char>>::empty());
            }
        }
        j = j + 1;
    }
    assert(content@.take(content@.len() as int) == content@);
    if role == Role::Tool && pending.len() > 0 {
        return Err(ProviderError::InvalidRequest {
            provider: config.name.clone(),
            message: crate::text::owned(ONLY_RESULTS),
        });
    }
    flush_exec(items, role, pending);
    Ok(())
}

proof fn lemma_parts_fault_sticks(role: Role, items: Seq<Seq<char>>, cs: Seq<InputContent>, k: int)
    requires
        0 < k <= cs.len(),
        parts_items(role, items, cs.take(k)) is Err,
    ensures
        parts_items(role, items, cs) == parts_items(role, items, cs.take(k)),
    decreases cs.len() - k,
{
    if k < cs.len() {
        assert(cs.take(k + 1).drop_last() == cs.take(k));
        lemma_parts_fault_sticks(role, items, cs, k + 1);
    } else {
        assert(cs.take(k) == cs);
    }
}

fn system_exec(content: &Vec<InputContent>, config: &ProviderConfig, texts: &mut Vec<String>) -> (r: Result<(), ProviderError>)
    ensures
        match system_texts(content@) {
            Ok(t) => r is Ok && final(texts)@.map_values(|s: String| s@) == old(texts)@.map_values(|s: String| s@) + t,
            Err(f) => r matches Err(e) && fault_error(f, e, *config),
        },
{
    let ghost start = texts@.map_values(|s: String| s@);
    let mut j: usize = 0;
    assert(content@.take(0) =~= Seq::<InputContent>::empty());
    assert(texts@.map_values(|s: String| s@) =~= start + Seq::<Seq<char>>::empty());
    while j < content.len()
        invariant
            j <= content@.len(),
            system_texts(content@.take(j as int)) matches Ok(t) && texts@.map_values(|s: String| s@) == start + t,
        decreases content@.len() - j,
    {
        assert(content@.take(j + 1).drop_last() == content@.take(j as int));
        assert(content@.take(j + 1).last() == content@[j as int]);
        match &content[j] {
            InputContent::Text(t) => {
                let ghost before = texts@.map_values(|s: String| s@);
                texts.push(t.clone());
                assert(texts@.map_values(|s: String| s@) =~= before.push(t@));
            }
            _ => {
                proof { lemma_system_fault_sticks(content@, j as int + 1); }
                return Err(unsupported(config, NON_TEXT_SYSTEM));
            }
        }
        j = j + 1;
    }
    assert(content@.take(content@.len() as int) == content@);
    Ok(())
}

proof fn lemma_system_fault_sticks(cs: Seq<InputContent>, k: int)
    requires
        0 < k <= cs.len(),
        system_texts(cs.take(k)) is Err,
    ensures
        system_texts(cs) == system_texts(cs.take(k)),
    decreases cs.len() - k,
{
    if k < cs.len() {
        assert(cs.take(k + 1).drop_last() == cs.take(k));
        lemma_system_fault_sticks(cs, k + 1);
    } else {
        assert(cs.take(k) == cs);
    }
}

proof fn lemma_transcript_fault_sticks(ms: Seq<Message>, k: int)
    requires
        0 < k <= ms.len(),
        transcript(ms.take(k)) is Err,
    ensures
        transcript(ms) == transcript(ms.take(k)),
    decreases ms.len() - k,
{
    if k < ms.len() {
        assert(ms.take(k + 1).drop_last() == ms.take(k));
        lemma_transcript_fault_sticks(ms, k + 1);
    } else {
        assert(ms.take(k) == ms);
    }
}

fn format_exec(f: &ResponseFormat) -> (r: Json)
    ensures
        r@ == format_wire(*f),
{
    match f {
        ResponseFormat::Text => {
            let e = vec![entry("type", Json::string("text"))];
            assert(e@.map_values(|e: (String, Json)| (e.0@, e.1@)) =~= seq![("type"@, json_from_string("text"@))]);
            object_of(e)
        }
        ResponseFormat::JsonObject => {
            let e = vec![entry("type", Json::string("json_object"))];
            assert(e@.map_values(|e: (String, Json)| (e.0@, e.1@)) =~= seq![("type"@, json_from_string("json_object"@))]);
            object_of(e)
        }
        ResponseFormat::JsonSchema { name, schema, strict } => {
            let e = vec![
                entry("name", Json::string(name.as_str())),
                entry("schema", schema.duplicate()),
                entry("strict", Json::boolean(*strict)),
                entry("type", Json::string("json_schema")),
            ];
            assert(e@.map_values(|e: (String, Json)| (e.0@, e.1@)) =~= seq![
                ("name"@, json_from_string(name@)),
                ("schema"@, schema@),
                ("strict"@, bool_text(*strict)),
                ("type"@, json_from_string("json_schema"@)),
            ]);
            object_of(e)
        }
    }
}

fn choice_exec(c: &ToolChoice) -> (r: Json)
    ensures
        r@ == choice_wire(*c),
{
    match c {
        ToolChoice::Auto => Json::string("auto"),
        ToolChoice::NoTools => Json::string("none"),
        ToolChoice::Required => Json::string("required"),
        ToolChoice::Named(name) => {
            let e = vec![entry("name", Json::string(name.as_str())), entry("type", Json::string("function"))];
            assert(e@.map_values(|e: (String, Json)| (e.0@, e.1@)) =~= seq![
                ("name"@, json_from_string(name@)),
                ("type"@, json_from_string("function"@)),
            ]);
            object_of(e)
        }
    }
}

fn tool_exec(t: &ToolDefinition) -> (r: Json)
    ensures
        r@ == tool_wire(*t),
{
    let mut e: Vec<(String, Json)> = Vec::new();
    match &t.description {
        Some(d) => e.push(entry("description", Json::string(d.as_str()))),
        None => {}
    }
    let ghost a = e@.map_values(|e: (String, Json)| (e.0@, e.1@));
    assert(a =~= (match t.description { Some(d) => seq![("description"@, json_from_string(d@))], None => Seq::empty() }));
    e.push(entry("name", Json::string(t.name.as_str())));
    e.push(entry("parameters", t.parameters.duplicate()));
    let ghost b = e@.map_values(|e: (String, Json)| (e.0@, e.1@));
    assert(b =~= a + seq![("name"@, json_from_string(t.name@)), ("parameters"@, t.parameters@)]);
    match t.strict {
        Some(x) => e.push(entry("strict", Json::boolean(x))),
        None => {}
    }
    let ghost c = e@.map_values(|e: (String, Json)| (e.0@, e.1@));
    assert(c =~= b + (match t.strict { Some(x) => seq![("strict"@, bool_text(x))], None => Seq::empty() }));
    e.push(entry("type", Json::string("function")));
    assert(e@.map_values(|e: (String, Json)| (e.0@, e.1@)) =~= c + seq![("type"@, json_from_string("function"@))]);
    object_of(e)
}

fn copy_json(j: &Option<Json>) -> (r: Option<Json>)
    ensures
        r == *j,
{
    match j {
        Some(x) => Some(x.duplicate()),
        None => None,
    }
}

/// What `Request::build` answers for `value` on `config`.
pub open spec fn built(value: GenerateRequest, config: ProviderConfig, r: Result<Request, ProviderError>) -> bool {
    &&& match transcript(value.messages@) {
            Err(f) => r matches Err(e) && fault_error(f, e, config),
            Ok((instructions, items)) => match resolved_model(config, value@) {
                None => r matches Err(ProviderError::InvalidRequest { provider, message })
                    && provider == config.name && message@ == no_model_message(),
                Some(model) => r matches Ok(req) && is_body(req, value, instructions, items, model),
            },
        }
}

impl Request {
    /// Converts a neutral request into this dialect's body.
    ///
    /// Refuses anything but text in a system turn, an image outside a user
    /// turn, and text or images in a tool turn that no tool result follows;
    /// then resolves the model. System turns are joined by blank lines into
    /// `instructions`.
    pub fn build(value: &GenerateRequest, config: &ProviderConfig) -> (r: Result<Request, ProviderError>)
        ensures
            built(*value, *config, r),
    {
        let mut instructions: Vec<String> = Vec::new();
        let mut items: Vec<Json> = Vec::new();
        let mut i: usize = 0;
        assert(value.messages@.take(0) =~= Seq::<Message>::empty());
        assert(items@.map_values(|j: Json| j@) =~= Seq::<Seq<char>>::empty());
        assert(instructions@.map_values(|s: String| s@) =~= Seq::<Seq<char>>::empty());
        while i < value.messages.len()
            invariant
                i <= value.messages@.len(),
                transcript(value.messages@.take(i as int)) == Ok::<(Seq<Seq<char>>, Seq<Seq<char>>), ResponsesFault>(
                    (instructions@.map_values(|s: String| s@), items@.map_values(|j: Json| j@))),
            decreases value.messages@.len() - i,
        {
            let ghost ms = value.messages@.take(i + 1);
            assert(ms.drop_last() == value.messages@.take(i as int));
            assert(ms.last() == value.messages@[i as int]);
            let message = &value.messages[i];
            let outcome = if message.role == Role::System || message.role == Role::Developer {
                system_exec(&message.content, config, &mut instructions)
            } else {
                turn_exec(message.role, &message.content, &mut items, config)
            };
            match outcome {
                Ok(()) => {}
                Err(e) => {
                    proof { lemma_transcript_fault_sticks(value.messages@, i as int + 1); }
                    return Err(e);
                }
            }
            i = i + 1;
        }
        assert(value.messages@.take(value.messages@.len() as int) == value.messages@);
        let text = match &value.response_format {
            Some(f) => {
                let e = vec![entry("format", format_exec(f))];
                assert(e@.map_values(|e: (String, Json)| (e.0@, e.1@)) =~= seq![("format"@, format_wire(*f))]);
                Some(object_of(e))
            }
            None => None,
        };
        let reasoning = match value.reasoning_effort {
            Some(effort) => {
                let e = vec![entry("effort", Json::string(effort_text(effort)))];
                assert(e@.map_values(|e: (String, Json)| (e.0@, e.1@)) =~= seq![("effort"@, json_from_string(effort_name(effort)))]);
                Some(object_of(e))
            }
            None => None,
        };
        let tool_choice = match &value.tool_choice {
            Some(c) => Some(choice_exec(c)),
            None => None,
        };
        let mut tools: Vec<Json> = Vec::new();
        let mut k: usize = 0;
        assert(tools@.map_values(|j: Json| j@) =~= value.tools@.take(0).map_values(|t: ToolDefinition| tool_wire(t)));
        while k < value.tools.len()
            invariant
                k <= value.tools@.len(),
                tools@.map_values(|j: Json| j@) == value.tools@.take(k as int).map_values(|t: ToolDefinition| tool_wire(t)),
            decreases value.tools@.len() - k,
        {
            let ghost before = tools@.map_values(|j: Json| j@);
            let w = tool_exec(&value.tools[k]);
            tools.push(w);
            assert(tools@.map_values(|j: Json| j@) =~= before.push(tool_wire(value.tools@[k as int])));
            assert(value.tools@.take(k + 1) == value.tools@.take(k as int).push(value.tools@[k as int]));
            assert(value.tools@.take(k + 1).map_values(|t: ToolDefinition| tool_wire(t))
                =~= value.tools@.take(k as int).map_values(|t: ToolDefinition| tool_wire(t)).push(tool_wire(value.tools@[k as int])));
            k = k + 1;
        }
        assert(value.tools@.take(value.tools@.len() as int) == value.tools@);
        let model = match config.model_for(value) {
            Ok(m) => m,
            Err(e) => {
                return Err(e);
            }
        };
        let instruction_text = if instructions.len() > 0 { Some(crate::text::join(&instructions, "\n\n")) } else { None };
        let previous_response_id = match &value.previous_response_id {
            Some(p) => Some(p.clone()),
            None => None,
        };
        Ok(Request {
            model,
            input: items,
            instructions: instruction_text,
            max_output_tokens: value.max_tokens,
            temperature: value.temperature,
            top_p: value.top_p,
            reasoning,
            text,
            tools,
            tool_choice,
            previous_response_id,
            metadata: copy_json(&value.metadata),
            stream: None,
        })
    }

    /// Marks this body as a streaming request.
    pub fn streaming(self) -> (r: Request)
        ensures
            r == (Request { stream: Some(true), ..self }),
    {
        Request { stream: Some(true), ..self }
    }
}


/// A Responses response, as the wire carries it. Output items stay as JSON
/// so the ones the library does not model can be replayed verbatim.
#[derive(Debug, Clone, PartialEq, Eq)]
pub struct Response {
    pub id: String,
    pub model: String,
    pub status: String,
    pub output: Vec<Json>,
    pub usage: Option<ResponseUsage>,
    /// Every top-level field not named above, verbatim.
    pub extra: Vec<(String, Json)>,
}

/// Token accounting, in this dialect's names.
#[derive(Debug, Clone, Copy, PartialEq, Eq)]
pub struct ResponseUsage {
    pub input_tokens: u64,
    pub output_tokens: u64,
    pub total_tokens: u64,
}

/// The status a response's `status` maps to.
pub open spec fn response_status(s: Seq<char>) -> StatusView {
    if s == "completed"@ {
        StatusView::Completed
    } else if s == "incomplete"@ {
        StatusView::Incomplete
    } else if s == "requires_action"@ {
        StatusView::RequiresAction
    } else if s == "failed"@ {
        StatusView::Failed
    } else {
        StatusView::Other(s)
    }
}

/// The text and refusal parts of a message item's content, in order.
pub open spec fn message_parts(ps: Seq<Seq<char>>) -> Seq<PartView>
    decreases ps.len(),
{
    if ps.len() == 0 {
        Seq::empty()
    } else {
        let p = Some(ps.last());
        let kind = string_at(member(p, "type"@));
        message_parts(ps.drop_last()) + (
            if kind == Some("output_text"@) {
                match string_at(member(p, "text"@)) {
                    Some(t) => seq![PartView::Text(t)],
                    None => Seq::empty(),
                }
            } else if kind == Some("refusal"@) {
                match string_at(member(p, "refusal"@)) {
                    Some(t) => seq![PartView::Refusal(t)],
                    None => Seq::empty(),
                }
            } else {
                Seq::empty()
            }
        )
    }
}

/// The parts one output item becomes. An item the library does not model is
/// kept whole as reasoning state: models that emit reasoning items reject a
/// follow-up that leaves them out.
pub open spec fn item_parts(item: Json) -> Seq<PartView> {
    let v = Some(item@);
    let kind = string_at(member(v, "type"@));
    if kind == Some("message"@) {
        match elements_at(member(v, "content"@)) {
            Some(ps) => message_parts(ps),
            None => Seq::empty(),
        }
    } else if kind == Some("function_call"@) {
        seq![PartView::ToolCall(
            match string_at(member(v, "call_id"@)) { Some(x) => x, None => Seq::empty() },
            match string_at(member(v, "name"@)) { Some(x) => x, None => Seq::empty() },
            match string_at(member(v, "arguments"@)) { Some(x) => x, None => "{}"@ },
        )]
    } else {
        seq![PartView::Reasoning(item@)]
    }
}

pub open spec fn items_parts(items: Seq<Json>) -> Seq<PartView>
    decreases items.len(),
{
    if items.len() == 0 {
        Seq::empty()
    } else {
        items_parts(items.drop_last()) + item_parts(items.last())
    }
}

pub open spec fn entries_view(e: Seq<(String, Json)>) -> Seq<(Seq<char>, Seq<char>)> {
    e.map_values(|x: (String, Json)| (x.0@, x.1@))
}

/// Maps a response's `status` onto the neutral status.
pub fn parse_status(status: String) -> (r: ResponseStatus)
    ensures
        status_view(r) == response_status(status@),
{
    if crate::text::str_eq(status.as_str(), "completed") {
        ResponseStatus::Completed
    } else if crate::text::str_eq(status.as_str(), "incomplete") {
        ResponseStatus::Incomplete
    } else if crate::text::str_eq(status.as_str(), "requires_action") {
        ResponseStatus::RequiresAction
    } else if crate::text::str_eq(status.as_str(), "failed") {
        ResponseStatus::Failed
    } else {
        ResponseStatus::Other(status)
    }
}

fn is_kind(kind: &Option<String>, name: &str) -> (r: bool)
    ensures
        r == (match kind { Some(k) => k@ == name@, None => false }),
{
    match kind {
        Some(k) => crate::text::str_eq(k.as_str(), name),
        None => false,
    }
}

/// The parts one output item becomes.
pub fn convert_item(item: Json) -> (r: Vec<OutputContent>)
    ensures
        r@.map_values(|o: OutputContent| part_view(o)) == item_parts(item),
{
    let v = Some(item.duplicate());
    assert(json_opt_view(v) == Some(item@));
    let kind = Json::string_of(&Json::member_of(&v, "type"));
    let mut out: Vec<OutputContent> = Vec::new();
    if is_kind(&kind, "message") {
        match Json::elements_of(&Json::member_of(&v, "content")) {
            Some(parts) => {
                let ghost ps = parts@.map_values(|x: Json| x@);
                let mut i: usize = 0;
                assert(ps.take(0) =~= Seq::<Seq<char>>::empty());
                assert(out@.map_values(|o: OutputContent| part_view(o)) =~= Seq::<PartView>::empty());
                while i < parts.len()
                    invariant
                        i <= parts@.len(),
                        ps == parts@.map_values(|x: Json| x@),
                        out@.map_values(|o: OutputContent| part_view(o)) == message_parts(ps.take(i as int)),
                    decreases parts@.len() - i,
                {
                    assert(ps.take(i + 1).drop_last() == ps.take(i as int));
                    assert(ps.take(i + 1).last() == parts@[i as int]@);
                    let p = Some(parts[i].duplicate());
                    let pk = Json::string_of(&Json::member_of(&p, "type"));
                    if is_kind(&pk, "output_text") {
                        match Json::string_of(&Json::member_of(&p, "text")) {
                            Some(t) => out.push(OutputContent::Text(t)),
                            None => {}
                        }
                    } else if is_kind(&pk, "refusal") {
                        match Json::string_of(&Json::member_of(&p, "refusal")) {
                            Some(t) => out.push(OutputContent::Refusal(t)),
                            None => {}
                        }
                    }
                    assert(out@.map_values(|o: OutputContent| part_view(o)) =~= message_parts(ps.take(i + 1)));
                    i = i + 1;
                }
                assert(ps.take(ps.len() as int) == ps);
            }
            None => {}
        }
    } else if is_kind(&kind, "function_call") {
        let id = match Json::string_of(&Json::member_of(&v, "call_id")) { Some(x) => x, None => String::new() };
        let name = match Json::string_of(&Json::member_of(&v, "name")) { Some(x) => x, None => String::new() };
        let arguments = match Json::string_of(&Json::member_of(&v, "arguments")) {
            Some(x) => x,
            None => crate::text::owned("{}"),
        };
        out.push(OutputContent::ToolCall { id, name, arguments });
    } else {
        out.push(OutputContent::Reasoning { data: item });
    }
    assert(out@.map_values(|o: OutputContent| part_view(o)) =~= item_parts(item));
    out
}

impl From<Response> for GenerateResponse {
    /// Normalizes a response: every output item becomes parts, in order.
    fn from(value: Response) -> (r: GenerateResponse)
        ensures
            r.id == value.id,
            r.model == value.model,
            status_view(r.status) == response_status(value.status@),
            r.content@.map_values(|o: OutputContent| part_view(o)) == items_parts(value.output@),
            r.usage == match value.usage {
                Some(u) => Some(Usage { input_tokens: u.input_tokens, output_tokens: u.output_tokens, total_tokens: u.total_tokens }),
                None => None,
            },
            r.provider_metadata matches Some(m) && m@ == json_object_from(entries_view(value.extra@)),
    {
        let mut content: Vec<OutputContent> = Vec::new();
        let items = value.output;
        let ghost ss = items@;
        let mut i: usize = 0;
        assert(ss.take(0) =~= Seq::<Json>::empty());
        assert(content@.map_values(|o: OutputContent| part_view(o)) =~= Seq::<PartView>::empty());
        while i < items.len()
            invariant
                i <= items@.len(),
                ss == items@,
                content@.map_values(|o: OutputContent| part_view(o)) == items_parts(ss.take(i as int)),
            decreases items@.len() - i,
        {
            assert(ss.take(i + 1).drop_last() == ss.take(i as int));
            assert(ss.take(i + 1).last() == ss[i as int]);
            let ghost before = content@.map_values(|o: OutputContent| part_view(o));
            let mut parts = convert_item(items[i].duplicate());
            let ghost added = parts@.map_values(|o: OutputContent| part_view(o));
            content.append(&mut parts);
            assert(content@.map_values(|o: OutputContent| part_view(o)) =~= before + added);
            i = i + 1;
        }
        assert(ss.take(ss.len() as int) == ss);
        let usage = match value.usage {
            Some(u) => Some(Usage { input_tokens: u.input_tokens, output_tokens: u.output_tokens, total_tokens: u.total_tokens }),
            None => None,
        };
        GenerateResponse {
            id: value.id,
            model: value.model,
            status: parse_status(value.status),
            content,
            usage,
            provider_metadata: Some(Json::object(value.extra.as_slice())),
        }
    }
}

/// The conversion is specified by the contract of `from` itself; no spec
/// function stands for it.
impl vstd::std_specs::convert::FromSpecImpl<Response> for GenerateResponse {
    open spec fn obeys_from_spec() -> bool {
        false
    }

    open spec fn from_spec(v: Response) -> GenerateResponse {
        arbitrary()
    }
}

pub open spec fn or_null(j: Option<Seq<char>>) -> Seq<char> {
    match j {
        Some(x) => x,
        None => "null"@,
    }
}

/// The status a streamed response names; none reads as completed.
pub open spec fn streamed_status(s: Option<Seq<char>>) -> StatusView {
    match s {
        Some(x) => response_status(x),
        None => StatusView::Completed,
    }
}

/// Token counts, when the response reports all three.
pub open spec fn streamed_usage(response: Option<Seq<char>>) -> Option<Usage> {
    let u = member(response, "usage"@);
    match (unsigned_at(member(u, "input_tokens"@)), unsigned_at(member(u, "output_tokens"@)), unsigned_at(member(u, "total_tokens"@))) {
        (Some(a), Some(b), Some(c)) => Some(Usage { input_tokens: a, output_tokens: b, total_tokens: c }),
        _ => None,
    }
}

/// What one frame means, or the message of a streamed error. Every frame
/// carries its own `output_index`, so nothing is remembered between frames.
pub open spec fn responses_deltas(event: Seq<char>, data: Seq<char>) -> Result<Seq<DeltaView>, Seq<char>> {
    match json_canonical(data) {
        None => Ok(Seq::empty()),
        Some(t) => {
            let v = Some(t);
            let slot: usize = match unsigned_at(member(v, "output_index"@)) { Some(n) => n as usize, None => 0 };
            let delta = string_at(member(v, "delta"@));
            if event == "response.output_text.delta"@ {
                Ok(match delta { Some(x) => seq![DeltaView::Text(x)], None => Seq::empty() })
            } else if event == "response.output_text.done"@ {
                Ok(seq![DeltaView::TextEnd])
            } else if event == "response.refusal.delta"@ {
                Ok(match delta { Some(x) => seq![DeltaView::Refusal(x)], None => Seq::empty() })
            } else if event == "response.reasoning_summary_text.delta"@ {
                Ok(match delta { Some(x) => seq![DeltaView::ReasoningText(x)], None => Seq::empty() })
            } else if event == "response.output_item.added"@ {
                let item = member(v, "item"@);
                Ok(if string_at(member(item, "type"@)) == Some("function_call"@) {
                    seq![DeltaView::ToolStart(slot,
                        match string_at(member(item, "call_id"@)) { Some(x) => x, None => Seq::empty() },
                        match string_at(member(item, "name"@)) { Some(x) => x, None => Seq::empty() })]
                } else {
                    Seq::empty()
                })
            } else if event == "response.output_item.done"@ {
                let item = member(v, "item"@);
                let kind = string_at(member(item, "type"@));
                Ok(if kind == Some("message"@) || kind == Some("function_call"@) {
                    Seq::empty()
                } else {
                    seq![DeltaView::ReasoningBlob(or_null(item))]
                })
            } else if event == "response.function_call_arguments.delta"@ {
                Ok(match delta { Some(x) => seq![DeltaView::ToolArgs(slot, x)], None => Seq::empty() })
            } else if event == "response.function_call_arguments.done"@ {
                Ok((match string_at(member(v, "arguments"@)) {
                    Some(a) => seq![DeltaView::ToolReplace(slot, a)],
                    None => Seq::empty(),
                }).push(DeltaView::ToolEnd(slot)))
            } else if event == "response.completed"@ || event == "response.incomplete"@ || event == "response.failed"@ {
                let response = member(v, "response"@);
                Ok(seq![DeltaView::Meta(
                    string_at(member(response, "id"@)),
                    string_at(member(response, "model"@)),
                    Some(streamed_status(string_at(member(response, "status"@)))),
                    streamed_usage(response),
                    Some(or_null(response)),
                )])
            } else if event == "error"@ {
                Err(match string_at(member(v, "message"@)) { Some(m) => m, None => "unknown streaming error"@ })
            } else {
                Ok(Seq::empty())
            }
        },
    }
}

/// Decodes Responses frames. Stateless.
#[derive(Debug, Clone, Copy, PartialEq, Eq)]
pub struct Decoder;

fn or_null_exec(j: Option<Json>) -> (r: Json)
    ensures
        r@ == or_null(json_opt_view(j)),
{
    match j {
        Some(x) => x,
        None => Json::null(),
    }
}

fn streamed_status_exec(s: Option<String>) -> (r: ResponseStatus)
    ensures
        status_view(r) == streamed_status(opt_chars(s)),
{
    match s {
        Some(x) => parse_status(x),
        None => ResponseStatus::Completed,
    }
}

fn streamed_usage_exec(response: &Option<Json>) -> (r: Option<Usage>)
    ensures
        r == streamed_usage(json_opt_view(*response)),
{
    let u = Json::member_of(response, "usage");
    let a = Json::unsigned_of(&Json::member_of(&u, "input_tokens"));
    let b = Json::unsigned_of(&Json::member_of(&u, "output_tokens"));
    let c = Json::unsigned_of(&Json::member_of(&u, "total_tokens"));
    match (a, b, c) {
        (Some(a), Some(b), Some(c)) => Some(Usage { input_tokens: a, output_tokens: b, total_tokens: c }),
        _ => None,
    }
}

impl Decoder {
    /// Turns one frame into the deltas it carries. A streamed `error` frame
    /// fails the stream with its message, naming `endpoint`.
    pub fn decode(&mut self, frame: &SseFrame, endpoint: &str, out: &mut Vec<RawDelta>) -> (r: Result<(), ProviderError>)
        ensures
            match responses_deltas(event_name(frame.event), frame.data@) {
                Ok(ds) => r is Ok && deltas_view(final(out)@) == deltas_view(old(out)@) + ds,
                Err(m) => r matches Err(ProviderError::Stream { provider, message })
                    && provider@ == endpoint@ && message@ == m,
            },
    {
        let ghost start = deltas_view(out@);
        let value = match Json::parse(frame.data.as_str()) {
            Some(v) => Some(v),
            None => {
                assert(deltas_view(out@) =~= start + Seq::<DeltaView>::empty());
                return Ok(());
            }
        };
        let event = match &frame.event {
            Some(e) => e.as_str(),
            None => "",
        };
        proof { reveal_strlit(""); }
        let ghost ev = event_name(frame.event);
        assert(event@ == ev);
        let slot: usize = match Json::unsigned_of(&Json::member_of(&value, "output_index")) {
            Some(n) => n as usize,
            None => 0,
        };
        let delta = Json::string_of(&Json::member_of(&value, "delta"));
        if crate::text::str_eq(event, "response.output_text.delta") {
            match delta {
                Some(x) => push_delta(out, RawDelta::Text(x)),
                None => {}
            }
        } else if crate::text::str_eq(event, "response.output_text.done") {
            push_delta(out, RawDelta::TextEnd);
        } else if crate::text::str_eq(event, "response.refusal.delta") {
            match delta {
                Some(x) => push_delta(out, RawDelta::Refusal(x)),
                None => {}
            }
        } else if crate::text::str_eq(event, "response.reasoning_summary_text.delta") {
            match delta {
                Some(x) => push_delta(out, RawDelta::ReasoningText(x)),
                None => {}
            }
        } else if crate::text::str_eq(event, "response.output_item.added") {
            let item = Json::member_of(&value, "item");
            if is_kind(&Json::string_of(&Json::member_of(&item, "type")), "function_call") {
                let id = match Json::string_of(&Json::member_of(&item, "call_id")) { Some(x) => x, None => String::new() };
                let name = match Json::string_of(&Json::member_of(&item, "name")) { Some(x) => x, None => String::new() };
                push_delta(out, RawDelta::ToolStart { slot, id, name });
            }
        } else if crate::text::str_eq(event, "response.output_item.done") {
            let item = Json::member_of(&value, "item");
            let kind = Json::string_of(&Json::member_of(&item, "type"));
            if !(is_kind(&kind, "message") || is_kind(&kind, "function_call")) {
                push_delta(out, RawDelta::ReasoningBlob(or_null_exec(item)));
            }
        } else if crate::text::str_eq(event, "response.function_call_arguments.delta") {
            match delta {
                Some(x) => push_delta(out, RawDelta::ToolArgs { slot, fragment: x }),
                None => {}
            }
        } else if crate::text::str_eq(event, "response.function_call_arguments.done") {
            match Json::string_of(&Json::member_of(&value, "arguments")) {
                Some(a) => push_delta(out, RawDelta::ToolReplace { slot, arguments: a }),
                None => {}
            }
            push_delta(out, RawDelta::ToolEnd { slot });
        } else if crate::text::str_eq(event, "response.completed") || crate::text::str_eq(event, "response.incomplete")
            || crate::text::str_eq(event, "response.failed") {
            let response = Json::member_of(&value, "response");
            let id = Json::string_of(&Json::member_of(&response, "id"));
            let model = Json::string_of(&Json::member_of(&response, "model"));
            let status = streamed_status_exec(Json::string_of(&Json::member_of(&response, "status")));
            let usage = streamed_usage_exec(&response);
            push_delta(out, RawDelta::Meta { id, model, status: Some(status), usage, provider_metadata: Some(or_null_exec(response)) });
        } else if crate::text::str_eq(event, "error") {
            let message = match Json::string_of(&Json::member_of(&value, "message")) {
                Some(m) => m,
                None => crate::text::owned("unknown streaming error"),
            };
            return Err(ProviderError::Stream { provider: crate::text::owned(endpoint), message });
        }
        assert(deltas_view(out@) =~= start + responses_deltas(ev, frame.data@)->Ok_0);
        Ok(())
    }
}

/// A streamed `error` frame always fails the stream, with the message the
/// frame carries or, when it carries none, a fixed one; and no other frame
/// ever does.
pub proof fn law_an_error_frame_always_fails_the_stream(event: Seq<char>, data: Seq<char>)
    requires
        json_canonical(data) is Some,
    ensures
        responses_deltas(event, data) is Err <==> event == "error"@,
        event == "error"@ ==> responses_deltas(event, data) == Err::<Seq<DeltaView>, Seq<char>>(
            match string_at(member(json_canonical(data), "message"@)) {
                Some(m) => m,
                None => "unknown streaming error"@,
            }),
{
    reveal_strlit("error");
    reveal_strlit("response.completed");
    reveal_strlit("response.failed");
    reveal_strlit("response.function_call_arguments.delta");
    reveal_strlit("response.function_call_arguments.done");
    reveal_strlit("response.incomplete");
    reveal_strlit("response.output_item.added");
    reveal_strlit("response.output_item.done");
    reveal_strlit("response.output_text.delta");
    reveal_strlit("response.output_text.done");
    reveal_strlit("response.reasoning_summary_text.delta");
    reveal_strlit("response.refusal.delta");
    if event == "error"@ {
        assert(event.len() != "response.completed"@.len());
        assert(event.len() != "response.failed"@.len());
        assert(event.len() != "response.function_call_arguments.delta"@.len());
        assert(event.len() != "response.function_call_arguments.done"@.len());
        assert(event.len() != "response.incomplete"@.len());
        assert(event.len() != "response.output_item.added"@.len());
        assert(event.len() != "response.output_item.done"@.len());
        assert(event.len() != "response.output_text.delta"@.len());
        assert(event.len() != "response.output_text.done"@.len());
        assert(event.len() != "response.reasoning_summary_text.delta"@.len());
        assert(event.len() != "response.refusal.delta"@.len());
    }
}

/// Each status a response reports reads as the neutral status of the same
/// meaning, and only that one does: `completed` alone is complete,
/// `incomplete` alone is cut short, `requires_action` alone waits on the
/// caller, `failed` alone failed; anything else is kept as it came.
pub proof fn law_each_status_reads_as_its_own(s: Seq<char>)
    ensures
        (response_status(s) == StatusView::Completed) == (s == "completed"@),
        (response_status(s) == StatusView::Incomplete) == (s == "incomplete"@),
        (response_status(s) == StatusView::RequiresAction) == (s == "requires_action"@),
        (response_status(s) == StatusView::Failed) == (s == "failed"@),
        response_status(s) is Other ==> response_status(s)->Other_0 == s,
{
    reveal_strlit("completed");
    reveal_strlit("incomplete");
    reveal_strlit("requires_action");
    reveal_strlit("failed");
    assert("completed"@.len() != "incomplete"@.len());
    assert("completed"@.len() != "requires_action"@.len());
    assert("completed"@.len() != "failed"@.len());
    assert("incomplete"@.len() != "requires_action"@.len());
    assert("incomplete"@.len() != "failed"@.len());
    assert("requires_action"@.len() != "failed"@.len());
}

} // verus!
