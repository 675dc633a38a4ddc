//! The Gemini Interactions dialect: the request body, the response, and the
//! stream decoder.
//!
//! The transcript is a flat list of steps: text and images accumulate into a
//! `user_input` or `model_output` step, while tool calls, tool results and
//! replayed reasoning are steps of their own. Sampling controls are nested in
//! `generation_config`, and a tool result must name the tool it answers.

use vstd::prelude::*;
use crate::text::joined;
use crate::config::{ProviderConfig, resolved_model, no_model_message};
use crate::error::ProviderError;
use crate::json::{
    Json, entry, object_of, json_array_from, json_canonical, json_fields, json_from_string,
    json_object_from, json_opt_view, json_string_value, json_with_member, json_member, elements_at,
    member, string_at, unsigned_at,
};
use crate::sse::SseFrame;
use crate::stream::{DeltaView, RawDelta, deltas_view, push_delta, key_at, put_key, lemma_key_prefix, lemma_key_bounds};
use crate::model::{
    GenerateRequest, GenerateResponse, InputContent, Message, OutputContent, PartView, ReasoningEffort,
    ResponseFormat, ResponseStatus, Role, StatusView, ToolDefinition, Usage, part_view, status_view,
};
use crate::refusal::{
    unsupported, EFFORT_MAX, EFFORT_NONE, EFFORT_XHIGH, IMAGES_OUTSIDE_USER, NON_TEXT_SYSTEM,
    REQUEST_METADATA, TOOL_CHOICE,
};

verus! {

/// The complaint about anything but a tool result in a tool turn.
pub const ONLY_RESULTS: &'static str = "tool messages may only contain tool results";

/// What follows the call id in the complaint about a result with no call.
pub const NAME_REQUIRED: &'static str = "' in the transcript; Gemini requires the tool name alongside its result";

/// Sampling and reasoning controls, which this API nests rather than taking
/// at the top level. The two sampling controls are the bits of the caller's
/// `f32`.
#[derive(Debug, Clone, Copy, PartialEq, Eq)]
pub struct GenerationConfig {
    pub max_output_tokens: Option<u32>,
    pub temperature: Option<u32>,
    pub top_p: Option<u32>,
    pub thinking_level: Option<&'static str>,
}

/// The body of an Interactions request.
#[derive(Debug, Clone, PartialEq, Eq)]
pub struct Request {
    pub model: String,
    pub input: Json,
    pub system_instruction: Option<String>,
    pub generation_config: Option<GenerationConfig>,
    pub response_format: Option<Json>,
    pub tools: Vec<Json>,
    pub previous_interaction_id: Option<String>,
    pub stream: Option<bool>,
}

/// The `thinking_level` a portable effort maps to, or the capability to
/// refuse it under. The endpoint names `minimal`, `low`, `medium` and `high`
/// and rejects anything else by name.
pub open spec fn level_of(e: ReasoningEffort) -> Result<Seq<char>, Seq<char>> {
    match e {
        ReasoningEffort::Minimal => Ok("minimal"@),
        ReasoningEffort::Low => Ok("low"@),
        ReasoningEffort::Medium => Ok("medium"@),
        ReasoningEffort::High => Ok("high"@),
        ReasoningEffort::Off => Err(EFFORT_NONE@),
        ReasoningEffort::Xhigh => Err(EFFORT_XHIGH@),
        ReasoningEffort::Max => Err(EFFORT_MAX@),
    }
}

/// Maps a portable effort level onto this API's `thinking_level`, or names
/// the capability to refuse it under.
pub fn thinking_level(effort: ReasoningEffort) -> (r: Result<&'static str, &'static str>)
    ensures
        match r {
            Ok(l) => level_of(effort) == Ok::<Seq<char>, Seq<char>>(l@),
            Err(c) => level_of(effort) == Err::<Seq<char>, Seq<char>>(c@),
        },
{
    match effort {
        ReasoningEffort::Minimal => Ok("minimal"),
        ReasoningEffort::Low => Ok("low"),
        ReasoningEffort::Medium => Ok("medium"),
        ReasoningEffort::High => Ok("high"),
        ReasoningEffort::Off => Err(EFFORT_NONE),
        ReasoningEffort::Xhigh => Err(EFFORT_XHIGH),
        ReasoningEffort::Max => Err(EFFORT_MAX),
    }
}

/// Why a transcript cannot be expressed in this dialect.
pub enum GeminiFault {
    /// Something other than text in a system or developer turn.
    NonTextSystem,
    /// Something other than a tool result in a tool turn.
    NotAResult,
    /// An image in a turn that is neither the user's nor the model's.
    Image,
    /// A tool result whose call is nowhere in the transcript; carries its id.
    Unnamed(Seq<char>),
}

/// The name of the last call with this id anywhere in the parts.
pub open spec fn name_in(cs: Seq<InputContent>, id: Seq<char>) -> Option<Seq<char>>
    decreases cs.len(),
{
    if cs.len() == 0 {
        None
    } else {
        match cs.last() {
            InputContent::ToolCall { id: x, name, .. } => if x@ == id { Some(name@) } else { name_in(cs.drop_last(), id) },
            _ => name_in(cs.drop_last(), id),
        }
    }
}

/// The name of the last call with this id anywhere in the transcript.
pub open spec fn call_name(ms: Seq<Message>, id: Seq<char>) -> Option<Seq<char>>
    decreases ms.len(),
{
    if ms.len() == 0 {
        None
    } else {
        match name_in(ms.last().content@, id) {
            Some(n) => Some(n),
            None => call_name(ms.drop_last(), id),
        }
    }
}

/// Tool arguments as a structured value; text that is not JSON is sent as a
/// string rather than rejected.
pub open spec fn json_or_string(raw: Seq<char>) -> Seq<char> {
    match json_canonical(raw) {
        Some(v) => v,
        None => json_from_string(raw),
    }
}

/// A tool's output: an object as is, anything else as the string it came as.
pub open spec fn result_value(raw: Seq<char>) -> Seq<char> {
    match json_canonical(raw) {
        Some(v) => if json_fields(v) is Some { v } else { json_from_string(raw) },
        None => json_from_string(raw),
    }
}

pub open spec fn text_part(t: Seq<char>) -> Seq<char> {
    json_object_from(seq![("text"@, json_from_string(t)), ("type"@, json_from_string("text"@))])
}

pub open spec fn image_part(url: Seq<char>) -> Seq<char> {
    json_object_from(seq![("type"@, json_from_string("image"@)), ("uri"@, json_from_string(url))])
}

pub open spec fn call_step(id: Seq<char>, name: Seq<char>, arguments: Seq<char>) -> Seq<char> {
    json_object_from(seq![
        ("arguments"@, json_or_string(arguments)),
        ("id"@, json_from_string(id)),
        ("name"@, json_from_string(name)),
        ("type"@, json_from_string("function_call"@)),
    ])
}

pub open spec fn result_step(call_id: Seq<char>, name: Seq<char>, output: Seq<char>) -> Seq<char> {
    json_object_from(seq![
        ("call_id"@, json_from_string(call_id)),
        ("name"@, json_from_string(name)),
        ("result"@, result_value(output)),
        ("type"@, json_from_string("function_result"@)),
    ])
}

/// The step type a turn's text and images accumulate into.
pub open spec fn step_type(role: Role) -> Seq<char> {
    if role == Role::Assistant { "model_output"@ } else { "user_input"@ }
}

/// The steps with the pending parts emitted as one step, if there are any.
pub open spec fn flushed(steps: Seq<Seq<char>>, kind: Seq<char>, pending: Seq<Seq<char>>) -> Seq<Seq<char>> {
    if pending.len() == 0 {
        steps
    } else {
        steps.push(json_object_from(seq![("content"@, json_array_from(pending)), ("type"@, json_from_string(kind))]))
    }
}

/// The steps and pending parts after one more part of a turn.
pub open spec fn part_step(
    ms: Seq<Message>,
    role: Role,
    st: Result<(Seq<Seq<char>>, Seq<Seq<char>>), GeminiFault>,
    c: InputContent,
) -> Result<(Seq<Seq<char>>, Seq<Seq<char>>), GeminiFault> {
    match st {
        Err(f) => Err(f),
        Ok((steps, pending)) => match c {
            InputContent::Text(t) => if role == Role::Tool {
                Err(GeminiFault::NotAResult)
            } else {
                Ok((steps, pending.push(text_part(t@))))
            },
            InputContent::ImageUrl(u) => if role != Role::User && role != Role::Assistant {
                Err(GeminiFault::Image)
            } else {
                Ok((steps, pending.push(image_part(u@))))
            },
            InputContent::ToolCall { id, name, arguments } =>
                Ok((flushed(steps, step_type(role), pending).push(call_step(id@, name@, arguments@)), Seq::empty())),
            InputContent::ToolResult { call_id, output } => match call_name(ms, call_id@) {
                None => Err(GeminiFault::Unnamed(call_id@)),
                Some(name) => Ok((
                    flushed(steps, step_type(role), pending).push(result_step(call_id@, name, output@)),
                    Seq::empty(),
                )),
            },
            InputContent::Reasoning { data } =>
                Ok((flushed(steps, step_type(role), pending).push(data@), Seq::empty())),
        },
    }
}

/// The steps and pending parts after the first parts of a turn.
pub open spec fn parts_steps(
    ms: Seq<Message>,
    role: Role,
    steps: Seq<Seq<char>>,
    cs: Seq<InputContent>,
) -> Result<(Seq<Seq<char>>, Seq<Seq<char>>), GeminiFault>
    decreases cs.len(),
{
    if cs.len() == 0 {
        Ok((steps, Seq::empty()))
    } else {
        part_step(ms, role, parts_steps(ms, role, steps, cs.drop_last()), cs.last())
    }
}

/// The texts of a system or developer turn, or a fault if it holds anything else.
pub open spec fn system_texts(cs: Seq<InputContent>) -> Result<Seq<Seq<char>>, GeminiFault>
    decreases cs.len(),
{
    if cs.len() == 0 {
        Ok(Seq::empty())
    } else {
        match system_texts(cs.drop_last()) {
            Err(f) => Err(f),
            Ok(prev) => match cs.last() {
                InputContent::Text(t) => Ok(prev.push(t@)),
                _ => Err(GeminiFault::NonTextSystem),
            },
        }
    }
}

pub open spec fn is_system(role: Role) -> bool {
    role == Role::System || role == Role::Developer
}

/// The system texts and steps of the first turns of `all`, or the first fault.
pub open spec fn transcript(all: Seq<Message>, ms: Seq<Message>) -> Result<(Seq<Seq<char>>, Seq<Seq<char>>), GeminiFault>
    decreases ms.len(),
{
    if ms.len() == 0 {
        Ok((Seq::empty(), Seq::empty()))
    } else {
        match transcript(all, ms.drop_last()) {
            Err(f) => Err(f),
            Ok((system, steps)) => {
                let m = ms.last();
                if is_system(m.role) {
                    match system_texts(m.content@) {
                        Err(f) => Err(f),
                        Ok(t) => Ok((system + t, steps)),
                    }
                } else {
                    match parts_steps(all, m.role, steps, m.content@) {
                        Err(f) => Err(f),
                        Ok((s, pending)) => Ok((system, flushed(s, step_type(m.role), pending))),
                    }
                }
            },
        }
    }
}

/// The text of a lone plain-text user step, which may be sent as a bare string.
pub open spec fn lone_text(steps: Seq<Seq<char>>) -> Option<Seq<char>> {
    if steps.len() == 1 && string_at(member(Some(steps[0]), "type"@)) == Some("user_input"@) {
        match elements_at(member(Some(steps[0]), "content"@)) {
            Some(c) => if c.len() == 1 && string_at(member(Some(c[0]), "type"@)) == Some("text"@) {
                Some(match member(Some(c[0]), "text"@) { Some(t) => t, None => "null"@ })
            } else {
                None
            },
            None => None,
        }
    } else {
        None
    }
}

/// The request's `input`: a lone plain-text user step as its bare string,
/// else the list of steps.
pub open spec fn input_of(steps: Seq<Seq<char>>) -> Seq<char> {
    match lone_text(steps) {
        Some(t) => t,
        None => json_array_from(steps),
    }
}

/// `response_format` here is the schema itself, with the JSON Schema type
/// names; a schema's name and strictness have nowhere to go.
pub open spec fn format_wire(f: ResponseFormat) -> Seq<char> {
    match f {
        ResponseFormat::Text => json_object_from(seq![("type"@, json_from_string("text"@))]),
        ResponseFormat::JsonObject => json_object_from(seq![("type"@, json_from_string("object"@))]),
        ResponseFormat::JsonSchema { schema, .. } => schema@,
    }
}

pub open spec fn tool_wire(t: ToolDefinition) -> Seq<char> {
    json_object_from(seq![
        ("description"@, match t.description { Some(d) => json_from_string(d@), None => "null"@ }),
        ("name"@, json_from_string(t.name@)),
        ("parameters"@, t.parameters@),
        ("type"@, json_from_string("function"@)),
    ])
}

/// `request` is the body built from `value`, with this transcript and model.
pub open spec fn is_body(req: Request, value: GenerateRequest, system: Seq<Seq<char>>, steps: Seq<Seq<char>>, model: Seq<char>) -> bool {
    let level: Option<Seq<char>> = match value.reasoning_effort {
        Some(e) => match level_of(e) { Ok(l) => Some(l), Err(_) => None },
        None => None,
    };
    &&& req.model@ == model
    &&& req.input@ == input_of(steps)
    &&& (match req.system_instruction { Some(s) => Some(s@), None => None })
        == (if system.len() > 0 { Some(joined(system, "\n\n"@)) } else { None })
    &&& (if value.max_tokens is None && value.temperature is None && value.top_p is None && level is None {
            req.generation_config is None
        } else {
            req.generation_config matches Some(g)
                && g.max_output_tokens == value.max_tokens
                && g.temperature == value.temperature
                && g.top_p == value.top_p
                && (match g.thinking_level { Some(l) => Some(l@), None => None }) == level
        })
    &&& json_opt_view(req.response_format) == match value.response_format { Some(f) => Some(format_wire(f)), None => None }
    &&& req.tools@.map_values(|j: Json| j@) == value.tools@.map_values(|t: ToolDefinition| tool_wire(t))
    &&& (match req.previous_interaction_id { Some(s) => Some(s@), None => None })
        == (match value.previous_response_id { Some(s) => Some(s@), None => None })
    &&& req.stream is None
}


/// A fault, as the error the request is refused with.
pub open spec fn fault_error(f: GeminiFault, e: ProviderError, config: ProviderConfig) -> bool {
    match f {
        GeminiFault::NonTextSystem => e == ProviderError::UnsupportedCapability { provider: config.name, capability: NON_TEXT_SYSTEM },
        GeminiFault::Image => e == ProviderError::UnsupportedCapability { provider: config.name, capability: IMAGES_OUTSIDE_USER },
        GeminiFault::NotAResult => e matches ProviderError::InvalidRequest { provider, message }
            && provider == config.name && message@ == ONLY_RESULTS@,
        GeminiFault::Unnamed(id) => e matches ProviderError::InvalidRequest { provider, message }
            && provider == config.name && message@ == "no tool call with id '"@ + id + NAME_REQUIRED@,
    }
}

fn name_in_exec(content: &Vec<InputContent>, id: &str) -> (r: Option<String>)
    ensures
        match name_in(content@, id@) {
            Some(n) => r matches Some(x) && x@ == n,
            None => r is None,
        },
{
    let mut j = content.len();
    assert(content@.take(j as int) == content@);
    while j > 0
        invariant
            j <= content@.len(),
            name_in(content@.take(j as int), id@) == name_in(content@, id@),
        decreases j,
    {
        assert(content@.take(j as int).drop_last() == content@.take(j - 1));
        assert(content@.take(j as int).last() == content@[j - 1]);
        match &content[j - 1] {
            InputContent::ToolCall { id: x, name, .. } => {
                if crate::text::str_eq(x.as_str(), id) {
                    return Some(name.clone());
                }
            }
            _ => {}
        }
        j = j - 1;
    }
    None
}

fn call_name_exec(messages: &Vec<Message>, id: &str) -> (r: Option<String>)
    ensures
        match call_name(messages@, id@) {
            Some(n) => r matches Some(x) && x@ == n,
            None => r is None,
        },
{
    let mut i = messages.len();
    assert(messages@.take(i as int) == messages@);
    while i > 0
        invariant
            i <= messages@.len(),
            call_name(messages@.take(i as int), id@) == call_name(messages@, id@),
        decreases i,
    {
        assert(messages@.take(i as int).drop_last() == messages@.take(i - 1));
        assert(messages@.take(i as int).last() == messages@[i - 1]);
        match name_in_exec(&messages[i - 1].content, id) {
            Some(n) => {
                return Some(n);
            }
            None => {}
        }
        i = i - 1;
    }
    None
}

fn flush_exec(steps: &mut Vec<Json>, kind: &str, pending: Vec<Json>)
    ensures
        final(steps)@.map_values(|j: Json| j@) == flushed(old(steps)@.map_values(|j: Json| j@), kind@, pending@.map_values(|j: Json| j@)),
{
    if pending.len() == 0 {
        return;
    }
    let ghost pv = pending@.map_values(|j: Json| j@);
    let e = vec![entry("content", Json::array(pending.as_slice())), entry("type", Json::string(kind))];
    assert(e@.map_values(|e: (String, Json)| (e.0@, e.1@)) =~= seq![("content"@, json_array_from(pv)), ("type"@, json_from_string(kind@))]);
    let ghost before = steps@.map_values(|j: Json| j@);
    steps.push(object_of(e));
    assert(steps@.map_values(|j: Json| j@) =~= before.push(json_object_from(seq![("content"@, json_array_from(pv)), ("type"@, json_from_string(kind@))])));
}

fn json_or_string_exec(raw: &str) -> (r: Json)
    ensures
        r@ == json_or_string(raw@),
{
    match Json::parse(raw) {
        Some(v) => v,
        None => Json::string(raw),
    }
}

fn result_value_exec(raw: &str) -> (r: Json)
    ensures
        r@ == result_value(raw@),
{
    match Json::parse(raw) {
        Some(v) => {
            if v.as_object().is_some() {
                v
            } else {
                Json::string(raw)
            }
        }
        None => Json::string(raw),
    }
}

fn step_type_exec(role: Role) -> (r: &'static str)
    ensures
        r@ == step_type(role),
{
    if role == Role::Assistant { "model_output" } else { "user_input" }
}

/// The steps of one user, assistant or tool turn, appended to `steps`.
fn turn_steps(
    messages: &Vec<Message>,
    role: Role,
    content: &Vec<InputContent>,
    steps: &mut Vec<Json>,
    config: &ProviderConfig,
) -> (r: Result<(), ProviderError>)
    ensures
        match parts_steps(messages@, role, old(steps)@.map_values(|j: Json| j@), content@) {
            Ok((s, pending)) => r is Ok
                && final(steps)@.map_values(|j: Json| j@) == flushed(s, step_type(role), pending),
            Err(f) => r matches Err(e) && fault_error(f, e, *config),
        },
{
    let ghost start = steps@.map_values(|j: Json| j@);
    let kind = step_type_exec(role);
    let mut pending: Vec<Json> = Vec::new();
    let mut j: usize = 0;
    assert(content@.take(0) =~= Seq::<InputContent>::empty());
    assert(pending@.map_values(|j: Json| j@) =~= Seq::<Seq<char>>::empty());
    while j < content.len()
        invariant
            j <= content@.len(),
            kind@ == step_type(role),
            start == old(steps)@.map_values(|j: Json| j@),
            parts_steps(messages@, role, start, content@.take(j as int))
                == Ok::<(Seq<Seq<char>>, Seq<Seq<char>>), GeminiFault>((steps@.map_values(|j: Json| j@), pending@.map_values(|j: Json| j@))),
        decreases content@.len() - j,
    {
        assert(content@.take(j + 1).drop_last() == content@.take(j as int));
        assert(content@.take(j + 1).last() == content@[j as int]);
        let ghost sv = steps@.map_values(|j: Json| j@);
        let ghost pv = pending@.map_values(|j: Json| j@);
        match &content[j] {
            InputContent::Text(t) => {
                if role == Role::Tool {
                    proof { lemma_parts_fault_sticks(messages@, role, start, content@, j as int + 1); }
                    return Err(ProviderError::InvalidRequest {
                        provider: config.name.clone(),
                        message: crate::text::owned(ONLY_RESULTS),
                    });
                }
                let e = vec![entry("text", Json::string(t.as_str())), entry("type", Json::string("text"))];
                assert(e@.map_values(|e: (String, Json)| (e.0@, e.1@)) =~= seq![("text"@, json_from_string(t@)), ("type"@, json_from_string("text"@))]);
                pending.push(object_of(e));
                assert(pending@.map_values(|j: Json| j@) =~= pv.push(text_part(t@)));
            }
            InputContent::ImageUrl(u) => {
                if role != Role::User && role != Role::Assistant {
                    proof { lemma_parts_fault_sticks(messages@, role, start, content@, j as int + 1); }
                    return Err(unsupported(config, IMAGES_OUTSIDE_USER));
                }
                let e = vec![entry("type", Json::string("image")), entry("uri", Json::string(u.as_str()))];
                assert(e@.map_values(|e: (String, Json)| (e.0@, e.1@)) =~= seq![("type"@, json_from_string("image"@)), ("uri"@, json_from_string(u@))]);
                pending.push(object_of(e));
                assert(pending@.map_values(|j: Json| j@) =~= pv.push(image_part(u@)));
            }
            InputContent::ToolCall { id, name, arguments } => {
                flush_exec(steps, kind, pending);
                pending = Vec::new();
                let e = vec![
                    entry("arguments", json_or_string_exec(arguments.as_str())),
                    entry("id", Json::string(id.as_str())),
                    entry("name", Json::string(name.as_str())),
                    entry("type", Json::string("function_call")),
                ];
                assert(e@.map_values(|e: (String, Json)| (e.0@, e.1@)) =~= seq![
                    ("arguments"@, json_or_string(arguments@)),
                    ("id"@, json_from_string(id@)),
                    ("name"@, json_from_string(name@)),
                    ("type"@, json_from_string("function_call"@)),
                ]);
                let ghost mid = steps@.map_values(|j: Json| j@);
                steps.push(object_of(e));
                assert(steps@.map_values(|j: Json| j@) =~= mid.push(call_step(id@, name@, arguments@)));
                assert(pending@.map_values(|j: Json| j@) =~= Seq::<Seq<char>>::empty());
            }
            InputContent::ToolResult { call_id, output } => {
                let name = match call_name_exec(messages, call_id.as_str()) {
                    Some(n) => n,
                    None => {
                        proof { lemma_parts_fault_sticks(messages@, role, start, content@, j as int + 1); }
                        let mut message = crate::text::owned("no tool call with id '");
                        message.append(call_id.as_str());
                        message.append(NAME_REQUIRED);
                        return Err(ProviderError::InvalidRequest { provider: config.name.clone(), message });
                    }
                };
                flush_exec(steps, kind, pending);
                pending = Vec::new();
                let e = vec![
                    entry("call_id", Json::string(call_id.as_str())),
                    entry("name", Json::string(name.as_str())),
                    entry("result", result_value_exec(output.as_str())),
                    entry("type", Json::string("function_result")),
                ];
                assert(e@.map_values(|e: (String, Json)| (e.0@, e.1@)) =~= seq![
                    ("call_id"@, json_from_string(call_id@)),
                    ("name"@, json_from_string(name@)),
                    ("result"@, result_value(output@)),
                    ("type"@, json_from_string("function_result"@)),
                ]);
                let ghost mid = steps@.map_values(|j: Json| j@);
                steps.push(object_of(e));
                assert(steps@.map_values(|j: Json| j@) =~= mid.push(result_step(call_id@, name@, output@)));
                assert(pending@.map_values(|j: Json| j@) =~= Seq::<Seq<char>>::empty());
            }
            InputContent::Reasoning { data } => {
                flush_exec(steps, kind, pending);
                pending = Vec::new();
                let ghost mid = steps@.map_values(|j: Json| j@);
                steps.push(data.duplicate());
                assert(steps@.map_values(|j: Json| j@) =~= mid.push(data@));
                assert(pending@.map_values(|j: Json| j@) =~= Seq::<Seq<char>>::empty());
            }
        }
        j = j + 1;
    }
    assert(content@.take(content@.len() as int) == content@);
    flush_exec(steps, kind, pending);
    Ok(())
}

proof fn lemma_parts_fault_sticks(ms: Seq<Message>, role: Role, steps: Seq<Seq<char>>, cs: Seq<InputContent>, k: int)
    requires
        0 < k <= cs.len(),
        parts_steps(ms, role, steps, cs.take(k)) is Err,
    ensures
        parts_steps(ms, role, steps, cs) == parts_steps(ms, role, steps, cs.take(k)),
    decreases cs.len() - k,
{
    if k < cs.len() {
        assert(cs.take(k + 1).drop_last() == cs.take(k));
        lemma_parts_fault_sticks(ms, role, steps, cs, k + 1);
    } else {
        assert(cs.take(k) == cs);
    }
}

fn system_exec(content: &Vec<InputContent>, config: &ProviderConfig, texts: &mut Vec<String>) -> (r: Result<(), ProviderError>)
    ensures
        match system_texts(content@) {
            Ok(t) => r is Ok && final(texts)@.map_values(|s: String| s@) == old(texts)@.map_values(|s: String| s@) + t,
            Err(f) => r matches Err(e) && fault_error(f, e, *config),
        },
{
    let ghost start = texts@.map_values(|s: String| s@);
    let mut j: usize = 0;
    assert(content@.take(0) =~= Seq::<InputContent>::empty());
    assert(texts@.map_values(|s: String| s@) =~= start + Seq::<Seq<char>>::empty());
    while j < content.len()
        invariant
            j <= content@.len(),
            system_texts(content@.take(j as int)) matches Ok(t) && texts@.map_values(|s: String| s@) == start + t,
        decreases content@.len() - j,
    {
        assert(content@.take(j + 1).drop_last() == content@.take(j as int));
        assert(content@.take(j + 1).last() == content@[j as int]);
        match &content[j] {
            InputContent::Text(t) => {
                let ghost before = texts@.map_values(|s: String| s@);
                texts.push(t.clone());
                assert(texts@.map_values(|s: String| s@) =~= before.push(t@));
            }
            _ => {
                proof { lemma_system_fault_sticks(content@, j as int + 1); }
                return Err(unsupported(config, NON_TEXT_SYSTEM));
            }
        }
        j = j + 1;
    }
    assert(content@.take(content@.len() as int) == content@);
    Ok(())
}

proof fn lemma_system_fault_sticks(cs: Seq<InputContent>, k: int)
    requires
        0 < k <= cs.len(),
        system_texts(cs.take(k)) is Err,
    ensures
        system_texts(cs) == system_texts(cs.take(k)),
    decreases cs.len() - k,
{
    if k < cs.len() {
        assert(cs.take(k + 1).drop_last() == cs.take(k));
        lemma_system_fault_sticks(cs, k + 1);
    } else {
        assert(cs.take(k) == cs);
    }
}

proof fn lemma_transcript_fault_sticks(all: Seq<Message>, ms: Seq<Message>, k: int)
    requires
        0 < k <= ms.len(),
        transcript(all, ms.take(k)) is Err,
    ensures
        transcript(all, ms) == transcript(all, ms.take(k)),
    decreases ms.len() - k,
{
    if k < ms.len() {
        assert(ms.take(k + 1).drop_last() == ms.take(k));
        lemma_transcript_fault_sticks(all, ms, k + 1);
    } else {
        assert(ms.take(k) == ms);
    }
}


fn input_exec(steps: Vec<Json>) -> (r: Json)
    ensures
        r@ == input_of(steps@.map_values(|j: Json| j@)),
{
    let ghost sv = steps@.map_values(|j: Json| j@);
    if steps.len() == 1 {
        let first = Some(steps[0].duplicate());
        assert(json_opt_view(first) == Some(sv[0]));
        let kind = Json::string_of(&Json::member_of(&first, "type"));
        let user = match &kind { Some(k) => crate::text::str_eq(k.as_str(), "user_input"), None => false };
        if user {
            match Json::elements_of(&Json::member_of(&first, "content")) {
                Some(parts) => {
                    if parts.len() == 1 {
                        let part = Some(parts[0].duplicate());
                        let pk = Json::string_of(&Json::member_of(&part, "type"));
                        let text = match &pk { Some(k) => crate::text::str_eq(k.as_str(), "text"), None => false };
                        if text {
                            return match Json::member_of(&part, "text") {
                                Some(t) => t,
                                None => Json::null(),
                            };
                        }
                    }
                }
                None => {}
            }
        }
    }
    Json::array(steps.as_slice())
}

fn format_exec(f: &ResponseFormat) -> (r: Json)
    ensures
        r@ == format_wire(*f),
{
    match f {
        ResponseFormat::Text => {
            let e = vec![entry("type", Json::string("text"))];
            assert(e@.map_values(|e: (String, Json)| (e.0@, e.1@)) =~= seq![("type"@, json_from_string("text"@))]);
            object_of(e)
        }
        ResponseFormat::JsonObject => {
            let e = vec![entry("type", Json::string("object"))];
            assert(e@.map_values(|e: (String, Json)| (e.0@, e.1@)) =~= seq![("type"@, json_from_string("object"@))]);
            object_of(e)
        }
        ResponseFormat::JsonSchema { schema, .. } => schema.duplicate(),
    }
}

fn tool_exec(t: &ToolDefinition) -> (r: Json)
    ensures
        r@ == tool_wire(*t),
{
    let description = match &t.description {
        Some(d) => Json::string(d.as_str()),
        None => Json::null(),
    };
    let e = vec![
        entry("description", description),
        entry("name", Json::string(t.name.as_str())),
        entry("parameters", t.parameters.duplicate()),
        entry("type", Json::string("function")),
    ];
    assert(e@.map_values(|e: (String, Json)| (e.0@, e.1@)) =~= seq![
        ("description"@, match t.description { Some(d) => json_from_string(d@), None => "null"@ }),
        ("name"@, json_from_string(t.name@)),
        ("parameters"@, t.parameters@),
        ("type"@, json_from_string("function"@)),
    ]);
    object_of(e)
}

/// What `Request::build` answers for `value` on `config`.
pub open spec fn built(value: GenerateRequest, config: ProviderConfig, r: Result<Request, ProviderError>) -> bool {
    &&& match value.reasoning_effort {
            Some(e) => level_of(e) is Err ==> (r matches Err(ProviderError::UnsupportedCapability { provider, capability })
                && provider == config.name && level_of(e) == Err::<Seq<char>, Seq<char>>(capability@)),
            None => true,
        }
    &&& (match value.reasoning_effort { Some(e) => level_of(e) is Ok, None => true }) ==> {
            if value.tool_choice is Some {
                r == Err::<Request, ProviderError>(ProviderError::UnsupportedCapability { provider: config.name, capability: TOOL_CHOICE })
            } else if value.metadata is Some {
                r == Err::<Request, ProviderError>(ProviderError::UnsupportedCapability { provider: config.name, capability: REQUEST_METADATA })
            } else {
                match transcript(value.messages@, value.messages@) {
                    Err(f) => r matches Err(e) && fault_error(f, e, config),
                    Ok((system, steps)) => match resolved_model(config, value@) {
                        None => r matches Err(ProviderError::InvalidRequest { provider, message })
                            && provider == config.name && message@ == no_model_message(),
                        Some(model) => r matches Ok(req) && is_body(req, value, system, steps, model),
                    },
                }
            }
        }
}

impl Request {
    /// Converts a neutral request into this dialect's body.
    ///
    /// Refuses an effort level the API has no word for, tool choice, request
    /// metadata, anything but text in a system turn, anything but results in
    /// a tool turn, an image outside a user or model turn, and a result whose call is
    /// nowhere in the transcript (the API wants the tool's name beside it);
    /// then resolves the model.
    pub fn build(value: &GenerateRequest, config: &ProviderConfig) -> (r: Result<Request, ProviderError>)
        ensures
            built(*value, *config, r),
    {
        let level = match value.reasoning_effort {
            Some(e) => match thinking_level(e) {
                Ok(l) => Some(l),
                Err(capability) => {
                    return Err(unsupported(config, capability));
                }
            },
            None => None,
        };
        if value.tool_choice.is_some() {
            return Err(unsupported(config, TOOL_CHOICE));
        }
        if value.metadata.is_some() {
            return Err(unsupported(config, REQUEST_METADATA));
        }
        let ghost all = value.messages@;
        let mut system: Vec<String> = Vec::new();
        let mut steps: Vec<Json> = Vec::new();
        let mut i: usize = 0;
        assert(value.messages@.take(0) =~= Seq::<Message>::empty());
        assert(steps@.map_values(|j: Json| j@) =~= Seq::<Seq<char>>::empty());
        assert(system@.map_values(|s: String| s@) =~= Seq::<Seq<char>>::empty());
        while i < value.messages.len()
            invariant
                i <= value.messages@.len(),
                all == value.messages@,
                match value.reasoning_effort { Some(e) => level_of(e) is Ok, None => true },
                value.tool_choice is None,
                value.metadata is None,
                transcript(all, value.messages@.take(i as int)) == Ok::<(Seq<Seq<char>>, Seq<Seq<char>>), GeminiFault>(
                    (system@.map_values(|s: String| s@), steps@.map_values(|j: Json| j@))),
            decreases value.messages@.len() - i,
        {
            let ghost ms = value.messages@.take(i + 1);
            assert(ms.drop_last() == value.messages@.take(i as int));
            assert(ms.last() == value.messages@[i as int]);
            let message = &value.messages[i];
            if message.role == Role::System || message.role == Role::Developer {
                match system_exec(&message.content, config, &mut system) {
                    Ok(()) => {}
                    Err(e) => {
                        proof { lemma_transcript_fault_sticks(all, value.messages@, i as int + 1); }
                        return Err(e);
                    }
                }
            } else {
                match turn_steps(&value.messages, message.role, &message.content, &mut steps, config) {
                    Ok(()) => {}
                    Err(e) => {
                        proof { lemma_transcript_fault_sticks(all, value.messages@, i as int + 1); }
                        return Err(e);
                    }
                }
            }
            i = i + 1;
        }
        assert(value.messages@.take(value.messages@.len() as int) == value.messages@);
        let response_format = match &value.response_format {
            Some(f) => Some(format_exec(f)),
            None => None,
        };
        let mut tools: Vec<Json> = Vec::new();
        let mut k: usize = 0;
        assert(tools@.map_values(|j: Json| j@) =~= value.tools@.take(0).map_values(|t: ToolDefinition| tool_wire(t)));
        while k < value.tools.len()
            invariant
                k <= value.tools@.len(),
                tools@.map_values(|j: Json| j@) == value.tools@.take(k as int).map_values(|t: ToolDefinition| tool_wire(t)),
            decreases value.tools@.len() - k,
        {
            let ghost before = tools@.map_values(|j: Json| j@);
            let w = tool_exec(&value.tools[k]);
            tools.push(w);
            assert(tools@.map_values(|j: Json| j@) =~= before.push(tool_wire(value.tools@[k as int])));
            assert(value.tools@.take(k + 1) == value.tools@.take(k as int).push(value.tools@[k as int]));
            assert(value.tools@.take(k + 1).map_values(|t: ToolDefinition| tool_wire(t))
                =~= value.tools@.take(k as int).map_values(|t: ToolDefinition| tool_wire(t)).push(tool_wire(value.tools@[k as int])));
            k = k + 1;
        }
        assert(value.tools@.take(value.tools@.len() as int) == value.tools@);
        let model = match config.model_for(value) {
            Ok(m) => m,
            Err(e) => {
                return Err(e);
            }
        };
        let generation_config = if value.max_tokens.is_some() || value.temperature.is_some() || value.top_p.is_some() || level.is_some() {
            Some(GenerationConfig {
                max_output_tokens: value.max_tokens,
                temperature: value.temperature,
                top_p: value.top_p,
                thinking_level: level,
            })
        } else {
            None
        };
        let system_instruction = if system.len() > 0 { Some(crate::text::join(&system, "\n\n")) } else { None };
        let previous_interaction_id = match &value.previous_response_id {
            Some(p) => Some(p.clone()),
            None => None,
        };
        Ok(Request {
            model,
            input: input_exec(steps),
            system_instruction,
            generation_config,
            response_format,
            tools,
            previous_interaction_id,
            stream: None,
        })
    }

    /// Marks this body as a streaming request.
    pub fn streaming(self) -> (r: Request)
        ensures
            r == (Request { stream: Some(true), ..self }),
    {
        Request { stream: Some(true), ..self }
    }
}


/// An Interactions response, as the wire carries it. Steps stay as JSON so
/// the ones the library does not model can be replayed verbatim.
#[derive(Debug, Clone, PartialEq, Eq)]
pub struct Response {
    pub id: String,
    pub model: String,
    pub status: String,
    pub steps: Vec<Json>,
    pub usage: Option<ResponseUsage>,
    /// Every top-level field not named above, verbatim.
    pub extra: Vec<(String, Json)>,
}

/// Token accounting, in this dialect's names.
#[derive(Debug, Clone, Copy, PartialEq, Eq)]
pub struct ResponseUsage {
    pub total_input_tokens: u64,
    pub total_output_tokens: u64,
    pub total_tokens: u64,
}

/// The status an interaction's `status` maps to.
pub open spec fn interaction_status(s: Seq<char>) -> StatusView {
    if s == "completed"@ {
        StatusView::Completed
    } else if s == "incomplete"@ || s == "budget_exceeded"@ {
        StatusView::Incomplete
    } else if s == "requires_action"@ {
        StatusView::RequiresAction
    } else if s == "failed"@ || s == "cancelled"@ {
        StatusView::Failed
    } else {
        StatusView::Other(s)
    }
}

/// The text parts among a `model_output` step's content, in order.
pub open spec fn text_parts(ps: Seq<Seq<char>>) -> Seq<PartView>
    decreases ps.len(),
{
    if ps.len() == 0 {
        Seq::empty()
    } else {
        let p = Some(ps.last());
        text_parts(ps.drop_last()) + (
            if string_at(member(p, "type"@)) == Some("text"@) {
                match string_at(member(p, "text"@)) {
                    Some(t) => seq![PartView::Text(t)],
                    None => Seq::empty(),
                }
            } else {
                Seq::empty()
            }
        )
    }
}

/// The parts one step becomes. A step the library does not model is kept
/// whole as reasoning state: the API rejects a follow-up whose thought steps
/// are missing or rebuilt.
pub open spec fn step_parts(step: Json) -> Seq<PartView> {
    let v = Some(step@);
    let kind = string_at(member(v, "type"@));
    if kind == Some("model_output"@) {
        match elements_at(member(v, "content"@)) {
            Some(ps) => text_parts(ps),
            None => Seq::empty(),
        }
    } else if kind == Some("function_call"@) {
        seq![PartView::ToolCall(
            match string_at(member(v, "id"@)) { Some(x) => x, None => Seq::empty() },
            match string_at(member(v, "name"@)) { Some(x) => x, None => Seq::empty() },
            match member(v, "arguments"@) { Some(x) => x, None => "{}"@ },
        )]
    } else {
        seq![PartView::Reasoning(step@)]
    }
}

pub open spec fn steps_parts(ss: Seq<Json>) -> Seq<PartView>
    decreases ss.len(),
{
    if ss.len() == 0 {
        Seq::empty()
    } else {
        steps_parts(ss.drop_last()) + step_parts(ss.last())
    }
}

pub open spec fn entries_view(e: Seq<(String, Json)>) -> Seq<(Seq<char>, Seq<char>)> {
    e.map_values(|x: (String, Json)| (x.0@, x.1@))
}

/// Maps an interaction's `status` onto the neutral status.
pub fn parse_status(status: String) -> (r: ResponseStatus)
    ensures
        status_view(r) == interaction_status(status@),
{
    if crate::text::str_eq(status.as_str(), "completed") {
        ResponseStatus::Completed
    } else if crate::text::str_eq(status.as_str(), "incomplete") || crate::text::str_eq(status.as_str(), "budget_exceeded") {
        ResponseStatus::Incomplete
    } else if crate::text::str_eq(status.as_str(), "requires_action") {
        ResponseStatus::RequiresAction
    } else if crate::text::str_eq(status.as_str(), "failed") || crate::text::str_eq(status.as_str(), "cancelled") {
        ResponseStatus::Failed
    } else {
        ResponseStatus::Other(status)
    }
}

fn is_kind(kind: &Option<String>, name: &str) -> (r: bool)
    ensures
        r == (match kind { Some(k) => k@ == name@, None => false }),
{
    match kind {
        Some(k) => crate::text::str_eq(k.as_str(), name),
        None => false,
    }
}

/// The parts one step becomes.
pub fn convert_step(step: Json) -> (r: Vec<OutputContent>)
    ensures
        r@.map_values(|o: OutputContent| part_view(o)) == step_parts(step),
{
    let v = Some(step.duplicate());
    assert(json_opt_view(v) == Some(step@));
    let kind = Json::string_of(&Json::member_of(&v, "type"));
    let mut out: Vec<OutputContent> = Vec::new();
    if is_kind(&kind, "model_output") {
        match Json::elements_of(&Json::member_of(&v, "content")) {
            Some(parts) => {
                let ghost ps = parts@.map_values(|x: Json| x@);
                let mut i: usize = 0;
                assert(ps.take(0) =~= Seq::<Seq<char>>::empty());
                assert(out@.map_values(|o: OutputContent| part_view(o)) =~= Seq::<PartView>::empty());
                while i < parts.len()
                    invariant
                        i <= parts@.len(),
                        ps == parts@.map_values(|x: Json| x@),
                        out@.map_values(|o: OutputContent| part_view(o)) == text_parts(ps.take(i as int)),
                    decreases parts@.len() - i,
                {
                    assert(ps.take(i + 1).drop_last() == ps.take(i as int));
                    assert(ps.take(i + 1).last() == parts@[i as int]@);
                    let p = Some(parts[i].duplicate());
                    let ghost before = out@.map_values(|o: OutputContent| part_view(o));
                    if is_kind(&Json::string_of(&Json::member_of(&p, "type")), "text") {
                        match Json::string_of(&Json::member_of(&p, "text")) {
                            Some(t) => {
                                out.push(OutputContent::Text(t));
                            }
                            None => {}
                        }
                    }
                    assert(out@.map_values(|o: OutputContent| part_view(o)) =~= text_parts(ps.take(i + 1)));
                    i = i + 1;
                }
                assert(ps.take(ps.len() as int) == ps);
            }
            None => {}
        }
    } else if is_kind(&kind, "function_call") {
        let id = match Json::string_of(&Json::member_of(&v, "id")) { Some(x) => x, None => String::new() };
        let name = match Json::string_of(&Json::member_of(&v, "name")) { Some(x) => x, None => String::new() };
        let arguments = match Json::member_of(&v, "arguments") {
            Some(a) => crate::text::owned(a.text()),
            None => crate::text::owned("{}"),
        };
        out.push(OutputContent::ToolCall { id, name, arguments });
    } else {
        out.push(OutputContent::Reasoning { data: step });
    }
    assert(out@.map_values(|o: OutputContent| part_view(o)) =~= step_parts(step));
    out
}

impl From<Response> for GenerateResponse {
    /// Normalizes a response: every step becomes parts, in order.
    fn from(value: Response) -> (r: GenerateResponse)
        ensures
            r.id == value.id,
            r.model == value.model,
            status_view(r.status) == interaction_status(value.status@),
            r.content@.map_values(|o: OutputContent| part_view(o)) == steps_parts(value.steps@),
            r.usage == match value.usage {
                Some(u) => Some(Usage { input_tokens: u.total_input_tokens, output_tokens: u.total_output_tokens, total_tokens: u.total_tokens }),
                None => None,
            },
            r.provider_metadata matches Some(m) && m@ == json_object_from(entries_view(value.extra@)),
    {
        let mut content: Vec<OutputContent> = Vec::new();
        let steps = value.steps;
        let ghost ss = steps@;
        let mut i: usize = 0;
        assert(ss.take(0) =~= Seq::<Json>::empty());
        assert(content@.map_values(|o: OutputContent| part_view(o)) =~= Seq::<PartView>::empty());
        while i < steps.len()
            invariant
                i <= steps@.len(),
                ss == steps@,
                content@.map_values(|o: OutputContent| part_view(o)) == steps_parts(ss.take(i as int)),
            decreases steps@.len() - i,
        {
            assert(ss.take(i + 1).drop_last() == ss.take(i as int));
            assert(ss.take(i + 1).last() == ss[i as int]);
            let ghost before = content@.map_values(|o: OutputContent| part_view(o));
            let mut parts = convert_step(steps[i].duplicate());
            let ghost added = parts@.map_values(|o: OutputContent| part_view(o));
            content.append(&mut parts);
            assert(content@.map_values(|o: OutputContent| part_view(o)) =~= before + added);
            i = i + 1;
        }
        assert(ss.take(ss.len() as int) == ss);
        let usage = match value.usage {
            Some(u) => Some(Usage { input_tokens: u.total_input_tokens, output_tokens: u.total_output_tokens, total_tokens: u.total_tokens }),
            None => None,
        };
        GenerateResponse {
            id: value.id,
            model: value.model,
            status: parse_status(value.status),
            content,
            usage,
            provider_metadata: Some(Json::object(value.extra.as_slice())),
        }
    }
}

/// The conversion is specified by the contract of `from` itself; no spec
/// function stands for it.
impl vstd::std_specs::convert::FromSpecImpl<Response> for GenerateResponse {
    open spec fn obeys_from_spec() -> bool {
        false
    }

    open spec fn from_spec(v: Response) -> GenerateResponse {
        arbitrary()
    }
}


/// A step's member `key` after a delta's value for it: a string appends to a
/// string already there; anything else replaces what was there.
pub open spec fn merge_field(target: Seq<char>, key: Seq<char>, value: Seq<char>) -> Seq<char> {
    let updated = match (string_at(json_member(target, key)), json_string_value(value)) {
        (Some(existing), Some(fragment)) => json_from_string(existing + fragment),
        _ => value,
    };
    match json_with_member(target, key, updated) {
        Some(t) => t,
        None => target,
    }
}

pub open spec fn merge_fields(target: Seq<char>, fields: Seq<(Seq<char>, Seq<char>)>) -> Seq<char>
    decreases fields.len(),
{
    if fields.len() == 0 {
        target
    } else {
        let t = merge_fields(target, fields.drop_last());
        if fields.last().0 == "type"@ { t } else { merge_field(t, fields.last().0, fields.last().1) }
    }
}

/// A step with one `step.delta` payload folded in. `type` names the delta,
/// not the step, so it is never copied.
pub open spec fn merged(step: Seq<char>, delta: Seq<char>) -> Seq<char> {
    match (json_fields(delta), json_fields(step)) {
        (Some(fields), Some(_)) => merge_fields(step, fields),
        _ => step,
    }
}

/// What a started step is.
pub enum StepView {
    Tool,
    ModelOutput,
    /// The step as it arrived, and the signature streamed for it.
    Thought(Seq<char>, Seq<char>),
    /// A step this decoder does not model, with its deltas folded in.
    Opaque(Seq<char>),
}

/// A started step, as the decoder keeps it.
pub enum Step {
    Tool,
    ModelOutput,
    Thought(Json, String),
    Opaque(Json),
}

pub open spec fn step_view(s: Step) -> StepView {
    match s {
        Step::Tool => StepView::Tool,
        Step::ModelOutput => StepView::ModelOutput,
        Step::Thought(j, sig) => StepView::Thought(j@, sig@),
        Step::Opaque(j) => StepView::Opaque(j@),
    }
}

pub open spec fn or_null(j: Option<Seq<char>>) -> Seq<char> {
    match j {
        Some(x) => x,
        None => "null"@,
    }
}

pub open spec fn chars_or_empty(j: Option<Seq<char>>) -> Seq<char> {
    match j {
        Some(x) => x,
        None => Seq::empty(),
    }
}

pub open spec fn unsigned_or_zero(j: Option<Seq<char>>) -> u64 {
    match unsigned_at(j) {
        Some(n) => n,
        None => 0,
    }
}

pub open spec fn start_step(st: Seq<(usize, StepView)>, v: Option<Seq<char>>, slot: usize) -> (Seq<(usize, StepView)>, Seq<DeltaView>) {
    let step = member(v, "step"@);
    let kind = string_at(member(step, "type"@));
    if kind == Some("function_call"@) {
        (put_key(st, slot, StepView::Tool), seq![DeltaView::ToolStart(slot,
            chars_or_empty(string_at(member(step, "id"@))), chars_or_empty(string_at(member(step, "name"@))))])
    } else if kind == Some("thought"@) {
        (put_key(st, slot, StepView::Thought(or_null(step), Seq::empty())), Seq::empty())
    } else if kind == Some("model_output"@) {
        (put_key(st, slot, StepView::ModelOutput), Seq::empty())
    } else {
        (put_key(st, slot, StepView::Opaque(or_null(step))), Seq::empty())
    }
}

pub open spec fn delta_step(st: Seq<(usize, StepView)>, v: Option<Seq<char>>, slot: usize) -> (Seq<(usize, StepView)>, Seq<DeltaView>) {
    let delta = member(v, "delta"@);
    let kind = string_at(member(delta, "type"@));
    if kind == Some("text"@) {
        match string_at(member(delta, "text"@)) {
            Some(t) => (st, seq![DeltaView::Text(t)]),
            None => (st, Seq::empty()),
        }
    } else if kind == Some("arguments_delta"@) {
        match string_at(member(delta, "arguments"@)) {
            Some(f) => (st, seq![DeltaView::ToolArgs(slot, f)]),
            None => (st, Seq::empty()),
        }
    } else if kind == Some("thought_summary"@) {
        match string_at(member(member(delta, "content"@), "text"@)) {
            Some(t) => (st, seq![DeltaView::ReasoningText(t)]),
            None => (st, Seq::empty()),
        }
    } else if kind == Some("thought_signature"@) {
        match (string_at(member(delta, "signature"@)), key_at(st, slot)) {
            (Some(sig), Some(i)) => match st[i].1 {
                StepView::Thought(step, signature) => (st.update(i, (slot, StepView::Thought(step, signature + sig))), Seq::empty()),
                _ => (st, Seq::empty()),
            },
            _ => (st, Seq::empty()),
        }
    } else {
        match key_at(st, slot) {
            Some(i) => match st[i].1 {
                StepView::Opaque(step) => (st.update(i, (slot, StepView::Opaque(merged(step, or_null(delta))))), Seq::empty()),
                _ => (st, Seq::empty()),
            },
            None => (st, Seq::empty()),
        }
    }
}

/// A thought step with its streamed signature put back, so the blob matches
/// what the parser would store.
pub open spec fn signed(step: Seq<char>, signature: Seq<char>) -> Seq<char> {
    if signature.len() > 0 && json_fields(step) is Some {
        match json_with_member(step, "signature"@, json_from_string(signature)) {
            Some(s) => s,
            None => step,
        }
    } else {
        step
    }
}

pub open spec fn stop_step(st: Seq<(usize, StepView)>, slot: usize) -> (Seq<(usize, StepView)>, Seq<DeltaView>) {
    match key_at(st, slot) {
        None => (st, Seq::empty()),
        Some(i) => (st.remove(i), match st[i].1 {
            StepView::Tool => seq![DeltaView::ToolEnd(slot)],
            StepView::ModelOutput => seq![DeltaView::TextEnd],
            StepView::Thought(step, signature) => seq![DeltaView::ReasoningBlob(signed(step, signature))],
            StepView::Opaque(step) => seq![DeltaView::ReasoningBlob(step)],
        }),
    }
}

/// The status a streamed interaction names; none reads as completed.
pub open spec fn streamed_status(s: Option<Seq<char>>) -> StatusView {
    match s {
        Some(x) => interaction_status(x),
        None => StatusView::Completed,
    }
}

pub open spec fn finish_step(v: Option<Seq<char>>) -> Seq<DeltaView> {
    let interaction = member(v, "interaction"@);
    let usage = match member(interaction, "usage"@) {
        Some(u) => Some(Usage {
            input_tokens: unsigned_or_zero(member(Some(u), "total_input_tokens"@)),
            output_tokens: unsigned_or_zero(member(Some(u), "total_output_tokens"@)),
            total_tokens: unsigned_or_zero(member(Some(u), "total_tokens"@)),
        }),
        None => None,
    };
    seq![DeltaView::Meta(
        string_at(member(interaction, "id"@)),
        string_at(member(interaction, "model"@)),
        Some(streamed_status(string_at(member(interaction, "status"@)))),
        usage,
        Some(or_null(interaction)),
    )]
}

/// What one frame does: the steps the decoder remembers next, and the deltas
/// the frame means. The payload names its own event; a frame that is not
/// JSON, or names no event this dialect sends, does nothing.
pub open spec fn gemini_step(st: Seq<(usize, StepView)>, data: Seq<char>) -> (Seq<(usize, StepView)>, Seq<DeltaView>) {
    match json_canonical(data) {
        None => (st, Seq::empty()),
        Some(t) => {
            let v = Some(t);
            let event = chars_or_empty(string_at(member(v, "event_type"@)));
            let slot: usize = match unsigned_at(member(v, "index"@)) { Some(n) => n as usize, None => 0 };
            if event == "step.start"@ {
                start_step(st, v, slot)
            } else if event == "step.delta"@ {
                delta_step(st, v, slot)
            } else if event == "step.stop"@ {
                stop_step(st, slot)
            } else if event == "interaction.completed"@ || event == "interaction.failed"@ || event == "interaction.incomplete"@ {
                (st, finish_step(v))
            } else {
                (st, Seq::empty())
            }
        },
    }
}


/// Folds one `step.delta` payload into a step.
fn merge_exec(step: Json, delta: &Json) -> (r: Json)
    ensures
        r@ == merged(step@, delta@),
{
    let fields = match delta.as_object() {
        Some(f) => f,
        None => {
            return step;
        }
    };
    if step.as_object().is_none() {
        return step;
    }
    let ghost fv = fields@.map_values(|e: (String, Json)| (e.0@, e.1@));
    assert(fv =~= json_fields(delta@)->0);
    let mut target = step;
    let mut i: usize = 0;
    assert(fv.take(0) =~= Seq::<(Seq<char>, Seq<char>)>::empty());
    while i < fields.len()
        invariant
            i <= fields@.len(),
            fv == fields@.map_values(|e: (String, Json)| (e.0@, e.1@)),
            target@ == merge_fields(step@, fv.take(i as int)),
        decreases fields@.len() - i,
    {
        assert(fv.take(i + 1).drop_last() == fv.take(i as int));
        assert(fv.take(i + 1).last() == fv[i as int]);
        let key = &fields[i].0;
        let value = &fields[i].1;
        if !crate::text::str_eq(key.as_str(), "type") {
            let current = target.get(key.as_str());
            let existing = Json::string_of(&current);
            let fragment = value.as_str();
            let updated = match (existing, fragment) {
                (Some(e), Some(f)) => {
                    let mut joined = e;
                    joined.append(f.as_str());
                    Json::string(joined.as_str())
                }
                _ => value.duplicate(),
            };
            target = match target.with_member(key.as_str(), &updated) {
                Some(t) => t,
                None => target,
            };
        }
        i = i + 1;
    }
    assert(fv.take(fv.len() as int) == fv);
    target
}

fn signed_exec(step: Json, signature: String) -> (r: Json)
    ensures
        r@ == signed(step@, signature@),
{
    if signature.as_str().is_empty() || step.as_object().is_none() {
        return step;
    }
    match step.with_member("signature", &Json::string(signature.as_str())) {
        Some(s) => s,
        None => step,
    }
}

fn or_null_exec(j: Option<Json>) -> (r: Json)
    ensures
        r@ == or_null(json_opt_view(j)),
{
    match j {
        Some(x) => x,
        None => Json::null(),
    }
}

fn string_or_empty(j: &Option<Json>) -> (r: String)
    ensures
        r@ == chars_or_empty(string_at(json_opt_view(*j))),
{
    match Json::string_of(j) {
        Some(x) => x,
        None => String::new(),
    }
}

fn unsigned_or_zero_exec(j: &Option<Json>) -> (r: u64)
    ensures
        r == unsigned_or_zero(json_opt_view(*j)),
{
    match Json::unsigned_of(j) {
        Some(n) => n,
        None => 0,
    }
}

fn interaction_status_exec(s: Option<String>) -> (r: ResponseStatus)
    ensures
        status_view(r) == streamed_status(match s { Some(x) => Some(x@), None => None }),
{
    match s {
        Some(x) => parse_status(x),
        None => ResponseStatus::Completed,
    }
}

/// Decodes Interactions frames. Stateful: `step.stop` names only an index,
/// so the decoder remembers what was started there.
pub struct Decoder {
    steps: Vec<(usize, Step)>,
}

impl Decoder {
    /// What the decoder remembers.
    pub closed spec fn state(self) -> Seq<(usize, StepView)> {
        self.steps@.map_values(|e: (usize, Step)| (e.0, step_view(e.1)))
    }

    /// A decoder that has seen nothing.
    pub fn new() -> (r: Decoder)
        ensures
            r.state() == Seq::<(usize, StepView)>::empty(),
    {
        let r = Decoder { steps: Vec::new() };
        assert(r.state() =~= Seq::<(usize, StepView)>::empty());
        r
    }

    /// This dialect's parser re-serializes tool arguments, which sorts their
    /// keys, so streamed arguments are put in the same canonical form.
    pub fn normalizes_tool_arguments(&self) -> (r: bool)
        ensures
            r,
    {
        true
    }

    fn find(&self, k: usize) -> (r: Option<usize>)
        ensures
            match r {
                Some(i) => key_at(self.state(), k) == Some(i as int) && i < self.steps@.len(),
                None => key_at(self.state(), k) is None,
            },
    {
        let ghost s = self.state();
        let mut j: usize = 0;
        assert(s.take(0) =~= Seq::<(usize, StepView)>::empty());
        while j < self.steps.len()
            invariant
                j <= self.steps@.len(),
                s == self.state(),
                s.len() == self.steps@.len(),
                key_at(s.take(j as int), k) is None,
            decreases self.steps@.len() - j,
        {
            assert(s.take(j + 1).drop_last() == s.take(j as int));
            assert(s[j as int].0 == self.steps@[j as int].0);
            if self.steps[j].0 == k {
                proof { lemma_key_prefix(s, k, j + 1); }
                return Some(j);
            }
            j = j + 1;
        }
        assert(s.take(s.len() as int) == s);
        None
    }

    /// Sets what was started at `slot`.
    fn put(&mut self, slot: usize, step: Step)
        ensures
            final(self).state() == put_key(old(self).state(), slot, step_view(step)),
    {
        let ghost before = self.state();
        let ghost sv = step_view(step);
        match self.find(slot) {
            Some(i) => {
                self.steps.remove(i);
                self.steps.insert(i, (slot, step));
                assert(self.state() =~= before.update(i as int, (slot, sv)));
            }
            None => {
                self.steps.push((slot, step));
                assert(self.state() =~= before.push((slot, sv)));
            }
        }
    }

    fn start(&mut self, v: &Option<Json>, slot: usize, out: &mut Vec<RawDelta>)
        ensures
            (final(self).state(), deltas_view(final(out)@)) == (
                start_step(old(self).state(), json_opt_view(*v), slot).0,
                deltas_view(old(out)@) + start_step(old(self).state(), json_opt_view(*v), slot).1),
    {
        let ghost st = self.state();
        let ghost start = deltas_view(out@);
        let step = Json::member_of(v, "step");
        let kind = Json::string_of(&Json::member_of(&step, "type"));
        if is_kind(&kind, "function_call") {
            self.put(slot, Step::Tool);
            let id = string_or_empty(&Json::member_of(&step, "id"));
            let name = string_or_empty(&Json::member_of(&step, "name"));
            push_delta(out, RawDelta::ToolStart { slot, id, name });
        } else if is_kind(&kind, "thought") {
            self.put(slot, Step::Thought(or_null_exec(step), String::new()));
        } else if is_kind(&kind, "model_output") {
            self.put(slot, Step::ModelOutput);
        } else {
            self.put(slot, Step::Opaque(or_null_exec(step)));
        }
        assert(deltas_view(out@) =~= start + start_step(st, json_opt_view(*v), slot).1);
    }

    fn delta(&mut self, v: &Option<Json>, slot: usize, out: &mut Vec<RawDelta>)
        ensures
            (final(self).state(), deltas_view(final(out)@)) == (
                delta_step(old(self).state(), json_opt_view(*v), slot).0,
                deltas_view(old(out)@) + delta_step(old(self).state(), json_opt_view(*v), slot).1),
    {
        let ghost st = self.state();
        let ghost start = deltas_view(out@);
        let delta = Json::member_of(v, "delta");
        let kind = Json::string_of(&Json::member_of(&delta, "type"));
        if is_kind(&kind, "text") {
            match Json::string_of(&Json::member_of(&delta, "text")) {
                Some(t) => push_delta(out, RawDelta::Text(t)),
                None => {}
            }
        } else if is_kind(&kind, "arguments_delta") {
            match Json::string_of(&Json::member_of(&delta, "arguments")) {
                Some(f) => push_delta(out, RawDelta::ToolArgs { slot, fragment: f }),
                None => {}
            }
        } else if is_kind(&kind, "thought_summary") {
            match Json::string_of(&Json::member_of(&Json::member_of(&delta, "content"), "text")) {
                Some(t) => push_delta(out, RawDelta::ReasoningText(t)),
                None => {}
            }
        } else if is_kind(&kind, "thought_signature") {
            match Json::string_of(&Json::member_of(&delta, "signature")) {
                Some(sig) => match self.find(slot) {
                    Some(i) => {
                        proof { lemma_key_bounds(st, slot); }
                        let (k, step) = self.steps.remove(i);
                        match step {
                            Step::Thought(j, signature) => {
                                let mut grown = signature;
                                grown.append(sig.as_str());
                                self.steps.insert(i, (k, Step::Thought(j, grown)));
                            }
                            other => {
                                self.steps.insert(i, (k, other));
                            }
                        }
                        assert(self.state() =~= delta_step(st, json_opt_view(*v), slot).0);
                    }
                    None => {}
                },
                None => {}
            }
        } else {
            match self.find(slot) {
                Some(i) => {
                    proof { lemma_key_bounds(st, slot); }
                    let (k, step) = self.steps.remove(i);
                    match step {
                        Step::Opaque(j) => {
                            let d = or_null_exec(delta);
                            self.steps.insert(i, (k, Step::Opaque(merge_exec(j, &d))));
                        }
                        other => {
                            self.steps.insert(i, (k, other));
                        }
                    }
                    assert(self.state() =~= delta_step(st, json_opt_view(*v), slot).0);
                }
                None => {}
            }
        }
        assert(deltas_view(out@) =~= start + delta_step(st, json_opt_view(*v), slot).1);
    }

    fn stop(&mut self, slot: usize, out: &mut Vec<RawDelta>)
        ensures
            (final(self).state(), deltas_view(final(out)@)) == (
                stop_step(old(self).state(), slot).0,
                deltas_view(old(out)@) + stop_step(old(self).state(), slot).1),
    {
        let ghost st = self.state();
        let ghost start = deltas_view(out@);
        match self.find(slot) {
            Some(i) => {
                let (_, step) = self.steps.remove(i);
                assert(self.state() =~= st.remove(i as int));
                match step {
                    Step::Tool => push_delta(out, RawDelta::ToolEnd { slot }),
                    Step::ModelOutput => push_delta(out, RawDelta::TextEnd),
                    Step::Thought(j, signature) => push_delta(out, RawDelta::ReasoningBlob(signed_exec(j, signature))),
                    Step::Opaque(j) => push_delta(out, RawDelta::ReasoningBlob(j)),
                }
            }
            None => {}
        }
        assert(deltas_view(out@) =~= start + stop_step(st, slot).1);
    }

    fn finish(&self, v: &Option<Json>, out: &mut Vec<RawDelta>)
        ensures
            deltas_view(final(out)@) == deltas_view(old(out)@) + finish_step(json_opt_view(*v)),
    {
        let interaction = Json::member_of(v, "interaction");
        let usage = Json::member_of(&interaction, "usage");
        let counted = match &usage {
            Some(_) => Some(Usage {
                input_tokens: unsigned_or_zero_exec(&Json::member_of(&usage, "total_input_tokens")),
                output_tokens: unsigned_or_zero_exec(&Json::member_of(&usage, "total_output_tokens")),
                total_tokens: unsigned_or_zero_exec(&Json::member_of(&usage, "total_tokens")),
            }),
            None => None,
        };
        let id = Json::string_of(&Json::member_of(&interaction, "id"));
        let model = Json::string_of(&Json::member_of(&interaction, "model"));
        let status = interaction_status_exec(Json::string_of(&Json::member_of(&interaction, "status")));
        let ghost start = deltas_view(out@);
        push_delta(out, RawDelta::Meta { id, model, status: Some(status), usage: counted, provider_metadata: Some(or_null_exec(interaction)) });
        assert(deltas_view(out@) =~= start + finish_step(json_opt_view(*v)));
    }

    /// Turns one frame into the deltas it carries, remembering what later
    /// frames need. Never fails.
    pub fn decode(&mut self, frame: &SseFrame, endpoint: &str, out: &mut Vec<RawDelta>) -> (r: Result<(), ProviderError>)
        ensures
            r is Ok,
            final(self).state() == gemini_step(old(self).state(), frame.data@).0,
            deltas_view(final(out)@) == deltas_view(old(out)@) + gemini_step(old(self).state(), frame.data@).1,
    {
        let value = match Json::parse(frame.data.as_str()) {
            Some(v) => Some(v),
            None => {
                assert(deltas_view(out@) =~= deltas_view(old(out)@) + Seq::<DeltaView>::empty());
                return Ok(());
            }
        };
        let event = string_or_empty(&Json::member_of(&value, "event_type"));
        let slot: usize = match Json::unsigned_of(&Json::member_of(&value, "index")) {
            Some(n) => n as usize,
            None => 0,
        };
        let e = event.as_str();
        if crate::text::str_eq(e, "step.start") {
            self.start(&value, slot, out);
        } else if crate::text::str_eq(e, "step.delta") {
            self.delta(&value, slot, out);
        } else if crate::text::str_eq(e, "step.stop") {
            self.stop(slot, out);
        } else if crate::text::str_eq(e, "interaction.completed") || crate::text::str_eq(e, "interaction.failed")
            || crate::text::str_eq(e, "interaction.incomplete") {
            self.finish(&value, out);
        } else {
            assert(deltas_view(out@) =~= deltas_view(old(out)@) + Seq::<DeltaView>::empty());
        }
        Ok(())
    }
}

/// Each status an interaction reports reads as the neutral status of the
/// same meaning: only `completed` is complete; `incomplete` and
/// `budget_exceeded` were cut short; only `requires_action` waits on the
/// caller; `failed` and `cancelled` failed; anything else is kept as it
/// came. An interaction with no status reads as complete.
pub proof fn law_each_status_reads_as_its_own(s: Seq<char>)
    ensures
        (interaction_status(s) == StatusView::Completed) == (s == "completed"@),
        (interaction_status(s) == StatusView::Incomplete) == (s == "incomplete"@ || s == "budget_exceeded"@),
        (interaction_status(s) == StatusView::RequiresAction) == (s == "requires_action"@),
        (interaction_status(s) == StatusView::Failed) == (s == "failed"@ || s == "cancelled"@),
        interaction_status(s) is Other ==> interaction_status(s)->Other_0 == s,
        streamed_status(Some(s)) == interaction_status(s),
        streamed_status(None) == StatusView::Completed,
{
    reveal_strlit("completed");
    reveal_strlit("incomplete");
    reveal_strlit("budget_exceeded");
    reveal_strlit("requires_action");
    reveal_strlit("failed");
    reveal_strlit("cancelled");
    assert("completed"@.len() != "incomplete"@.len());
    assert("completed"@.len() != "budget_exceeded"@.len());
    assert("completed"@.len() != "requires_action"@.len());
    assert("completed"@.len() != "failed"@.len());
    assert("completed"@[1] != "cancelled"@[1]);
    assert("incomplete"@.len() != "requires_action"@.len());
    assert("incomplete"@.len() != "failed"@.len());
    assert("incomplete"@.len() != "cancelled"@.len());
    assert("budget_exceeded"@[0] != "requires_action"@[0]);
    assert("budget_exceeded"@.len() != "failed"@.len());
    assert("budget_exceeded"@.len() != "cancelled"@.len());
    assert("requires_action"@.len() != "failed"@.len());
    assert("requires_action"@.len() != "cancelled"@.len());
}

} // verus!
