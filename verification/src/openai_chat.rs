//! The OpenAI Chat Completions dialect: the request body, the response, and
//! the stream decoder.
//!
//! This is the format the compatible ecosystem speaks. `system` is a real
//! message role here rather than a separate top-level field, a tool result
//! gets a `tool` message of its own, and content is sent as a bare string
//! whenever no image forces the array-of-parts form.

use vstd::prelude::*;
use crate::text::joined;
use crate::config::{ProviderConfig, TokenLimitField, resolved_model, no_model_message};
use crate::error::ProviderError;
use crate::refusal::{unsupported, CONVERSATION_CONTINUATION};
use crate::json::{
    Json, entry, object_of, json_array_from, json_canonical, json_from_string, json_object_from, bool_text, elements_at,
    first_at, member, string_at, unsigned_at, json_opt_view,
};
use crate::sse::{SseFrame, trim};
use crate::stream::{DeltaView, RawDelta, deltas_view, push_delta};
use crate::model::{
    GenerateRequest, GenerateResponse, InputContent, Message, OutputContent, PartView, ReasoningEffort,
    ResponseFormat, ResponseStatus, Role, StatusView, ToolChoice, ToolDefinition, Usage, part_view, status_view,
};

verus! {

/// The complaint about a tool turn answering two calls.
pub const ONE_RESULT_PER_MESSAGE: &'static str =
    "each tool message may answer only one tool call; send one message per result";

/// The body of a Chat Completions request.
///
/// Nested parts are held as JSON; the two sampling controls are the bits of
/// the caller's `f32`.
#[derive(Debug, Clone, PartialEq, Eq)]
pub struct Request {
    pub model: String,
    pub messages: Vec<Json>,
    /// The output cap under its older name, `max_tokens`.
    pub max_tokens: Option<u32>,
    /// The output cap under `max_completion_tokens`, which newer OpenAI models
    /// require and older compatible endpoints do not know.
    pub max_completion_tokens: Option<u32>,
    pub temperature: Option<u32>,
    pub top_p: Option<u32>,
    pub reasoning_effort: Option<ReasoningEffort>,
    pub response_format: Option<Json>,
    pub tools: Vec<Json>,
    pub tool_choice: Option<Json>,
    pub metadata: Option<Json>,
    pub stream: Option<bool>,
    pub stream_options: Option<Json>,
}

/// Why a transcript cannot be expressed in this dialect.
pub enum ChatFault {
    /// A tool turn answering more than one call.
    TwoResults,
}

/// One turn, gathered part by part.
pub struct ChatTurn {
    /// Text parts and tool outputs, in order.
    pub text: Seq<Seq<char>>,
    /// Text and image parts as wire parts, in order.
    pub parts: Seq<Seq<char>>,
    /// Tool calls as wire calls, in order.
    pub calls: Seq<Seq<char>>,
    /// The call this turn answers, if any.
    pub call_id: Option<Seq<char>>,
    /// Whether an image was seen.
    pub image: bool,
}

pub open spec fn empty_turn() -> ChatTurn {
    ChatTurn { text: Seq::empty(), parts: Seq::empty(), calls: Seq::empty(), call_id: None, image: false }
}

/// The wire spelling of a role. `developer` maps onto the portable `system`.
pub open spec fn role_name(role: Role) -> Seq<char> {
    match role {
        Role::System | Role::Developer => "system"@,
        Role::User => "user"@,
        Role::Assistant => "assistant"@,
        Role::Tool => "tool"@,
    }
}

pub open spec fn text_part(text: Seq<char>) -> Seq<char> {
    json_object_from(seq![("text"@, json_from_string(text)), ("type"@, json_from_string("text"@))])
}

pub open spec fn image_part(url: Seq<char>) -> Seq<char> {
    json_object_from(seq![
        ("image_url"@, json_object_from(seq![("url"@, json_from_string(url))])),
        ("type"@, json_from_string("image_url"@)),
    ])
}

pub open spec fn call_wire(id: Seq<char>, name: Seq<char>, arguments: Seq<char>) -> Seq<char> {
    json_object_from(seq![
        ("function"@, json_object_from(seq![
            ("arguments"@, json_from_string(arguments)),
            ("name"@, json_from_string(name)),
        ])),
        ("id"@, json_from_string(id)),
        ("type"@, json_from_string("function"@)),
    ])
}

/// The turn after one more part.
pub open spec fn chat_step(role: Role, st: Result<ChatTurn, ChatFault>, c: InputContent) -> Result<ChatTurn, ChatFault> {
    match st {
        Err(f) => Err(f),
        Ok(s) => match c {
            InputContent::Text(v) => Ok(ChatTurn { text: s.text.push(v@), parts: s.parts.push(text_part(v@)), ..s }),
            InputContent::ImageUrl(u) => Ok(ChatTurn { parts: s.parts.push(image_part(u@)), image: true, ..s }),
            InputContent::ToolCall { id, name, arguments } =>
                Ok(ChatTurn { calls: s.calls.push(call_wire(id@, name@, arguments@)), ..s }),
            InputContent::ToolResult { call_id, output } => if s.call_id is Some {
                Err(ChatFault::TwoResults)
            } else {
                Ok(ChatTurn { call_id: Some(call_id@), text: s.text.push(output@), ..s })
            },
            InputContent::Reasoning { .. } => Ok(s),
        },
    }
}

/// A turn's parts, gathered.
pub open spec fn chat_turn(role: Role, cs: Seq<InputContent>) -> Result<ChatTurn, ChatFault>
    decreases cs.len(),
{
    if cs.len() == 0 {
        Ok(empty_turn())
    } else {
        chat_step(role, chat_turn(role, cs.drop_last()), cs.last())
    }
}

/// A turn's content: the parts array when an image is present, else the
/// text joined by newlines, else nothing.
pub open spec fn turn_content(s: ChatTurn) -> Option<Seq<char>> {
    if s.image {
        Some(json_array_from(s.parts))
    } else if s.text.len() > 0 {
        Some(json_from_string(joined(s.text, "\n"@)))
    } else {
        None
    }
}

/// The members of a gathered turn on the wire.
pub open spec fn message_entries(role: Role, s: ChatTurn) -> Seq<(Seq<char>, Seq<char>)> {
    seq![
        ("content"@, match turn_content(s) { Some(c) => c, None => "null"@ }),
        ("role"@, json_from_string(role_name(role))),
    ]
    + (if s.calls.len() > 0 { seq![("tool_calls"@, json_array_from(s.calls))] } else { Seq::empty() })
    + (match s.call_id { Some(id) => seq![("tool_call_id"@, json_from_string(id))], None => Seq::empty() })
}

/// A gathered turn on the wire; `None` when it carries nothing to send.
pub open spec fn message_wire(role: Role, s: ChatTurn) -> Option<Seq<char>> {
    if turn_content(s) is None && s.calls.len() == 0 {
        None
    } else {
        Some(json_object_from(message_entries(role, s)))
    }
}

/// The transcript on the wire, or the first fault in it.
pub open spec fn chat_messages(ms: Seq<Message>) -> Result<Seq<Seq<char>>, ChatFault>
    decreases ms.len(),
{
    if ms.len() == 0 {
        Ok(Seq::empty())
    } else {
        match chat_messages(ms.drop_last()) {
            Err(f) => Err(f),
            Ok(prev) => match chat_turn(ms.last().role, ms.last().content@) {
                Err(f) => Err(f),
                Ok(s) => match message_wire(ms.last().role, s) {
                    Some(m) => Ok(prev.push(m)),
                    None => Ok(prev),
                },
            },
        }
    }
}

pub open spec fn format_wire(f: ResponseFormat) -> Seq<char> {
    match f {
        ResponseFormat::Text => json_object_from(seq![("type"@, json_from_string("text"@))]),
        ResponseFormat::JsonObject => json_object_from(seq![("type"@, json_from_string("json_object"@))]),
        ResponseFormat::JsonSchema { name, schema, strict } => json_object_from(seq![
            ("json_schema"@, json_object_from(seq![
                ("name"@, json_from_string(name@)),
                ("schema"@, schema@),
                ("strict"@, bool_text(strict)),
            ])),
            ("type"@, json_from_string("json_schema"@)),
        ]),
    }
}

pub open spec fn choice_wire(c: ToolChoice) -> Seq<char> {
    match c {
        ToolChoice::Auto => json_from_string("auto"@),
        ToolChoice::NoTools => json_from_string("none"@),
        ToolChoice::Required => json_from_string("required"@),
        ToolChoice::Named(name) => json_object_from(seq![
            ("function"@, json_object_from(seq![("name"@, json_from_string(name@))])),
            ("type"@, json_from_string("function"@)),
        ]),
    }
}

/// The members of a tool's `function` object.
pub open spec fn tool_members(t: ToolDefinition) -> Seq<(Seq<char>, Seq<char>)> {
    seq![("name"@, json_from_string(t.name@))]
    + (match t.description { Some(d) => seq![("description"@, json_from_string(d@))], None => Seq::empty() })
    + seq![("parameters"@, t.parameters@)]
    + (match t.strict { Some(b) => seq![("strict"@, bool_text(b))], None => Seq::empty() })
}

pub open spec fn tool_wire(t: ToolDefinition) -> Seq<char> {
    json_object_from(seq![
        ("function"@, json_object_from(tool_members(t))),
        ("type"@, json_from_string("function"@)),
    ])
}


/// The parts of one turn, as they are gathered.
struct Gathered {
    text: Vec<String>,
    parts: Vec<Json>,
    calls: Vec<Json>,
    call_id: Option<String>,
    image: bool,
}

impl Gathered {
    closed spec fn view_of(self) -> ChatTurn {
        ChatTurn {
            text: self.text@.map_values(|s: String| s@),
            parts: self.parts@.map_values(|j: Json| j@),
            calls: self.calls@.map_values(|j: Json| j@),
            call_id: match self.call_id { Some(id) => Some(id@), None => None },
            image: self.image,
        }
    }
}

fn role_text(role: Role) -> (r: &'static str)
    ensures
        r@ == role_name(role),
{
    match role {
        Role::System | Role::Developer => "system",
        Role::User => "user",
        Role::Assistant => "assistant",
        Role::Tool => "tool",
    }
}

fn text_part_exec(text: &str) -> (r: Json)
    ensures
        r@ == text_part(text@),
{
    let entries = vec![entry("text", Json::string(text)), entry("type", Json::string("text"))];
    assert(entries@.map_values(|e: (String, Json)| (e.0@, e.1@)) =~= seq![("text"@, json_from_string(text@)), ("type"@, json_from_string("text"@))]);
    object_of(entries)
}

fn image_part_exec(url: &str) -> (r: Json)
    ensures
        r@ == image_part(url@),
{
    let inner = vec![entry("url", Json::string(url))];
    assert(inner@.map_values(|e: (String, Json)| (e.0@, e.1@)) =~= seq![("url"@, json_from_string(url@))]);
    let entries = vec![entry("image_url", object_of(inner)), entry("type", Json::string("image_url"))];
    assert(entries@.map_values(|e: (String, Json)| (e.0@, e.1@)) =~= seq![
        ("image_url"@, json_object_from(seq![("url"@, json_from_string(url@))])),
        ("type"@, json_from_string("image_url"@)),
    ]);
    object_of(entries)
}

fn call_wire_exec(id: &str, name: &str, arguments: &str) -> (r: Json)
    ensures
        r@ == call_wire(id@, name@, arguments@),
{
    let inner = vec![entry("arguments", Json::string(arguments)), entry("name", Json::string(name))];
    assert(inner@.map_values(|e: (String, Json)| (e.0@, e.1@)) =~= seq![
        ("arguments"@, json_from_string(arguments@)),
        ("name"@, json_from_string(name@)),
    ]);
    let entries = vec![
        entry("function", object_of(inner)),
        entry("id", Json::string(id)),
        entry("type", Json::string("function")),
    ];
    assert(entries@.map_values(|e: (String, Json)| (e.0@, e.1@)) =~= seq![
        ("function"@, json_object_from(seq![
            ("arguments"@, json_from_string(arguments@)),
            ("name"@, json_from_string(name@)),
        ])),
        ("id"@, json_from_string(id@)),
        ("type"@, json_from_string("function"@)),
    ]);
    object_of(entries)
}

/// Gathers the parts of one turn.
fn gather(role: Role, content: &Vec<InputContent>) -> (r: Result<Gathered, ChatFault>)
    ensures
        match chat_turn(role, content@) {
            Ok(s) => r matches Ok(g) && g.view_of() == s,
            Err(ChatFault::TwoResults) => r matches Err(ChatFault::TwoResults),
        },
{
    let mut g = Gathered { text: Vec::new(), parts: Vec::new(), calls: Vec::new(), call_id: None, image: false };
    assert(g.view_of().text =~= Seq::<Seq<char>>::empty());
    assert(g.view_of().parts =~= Seq::<Seq<char>>::empty());
    assert(g.view_of().calls =~= Seq::<Seq<char>>::empty());
    assert(content@.take(0) =~= Seq::<InputContent>::empty());
    let mut j: usize = 0;
    while j < content.len()
        invariant
            j <= content@.len(),
            chat_turn(role, content@.take(j as int)) == Ok::<ChatTurn, ChatFault>(g.view_of()),
        decreases content@.len() - j,
    {
        assert(content@.take(j + 1).drop_last() == content@.take(j as int));
        assert(content@.take(j + 1).last() == content@[j as int]);
        let ghost before = g.view_of();
        match &content[j] {
            InputContent::Text(v) => {
                g.text.push(v.clone());
                g.parts.push(text_part_exec(v.as_str()));
                assert(g.view_of().text =~= before.text.push(v@));
                assert(g.view_of().parts =~= before.parts.push(text_part(v@)));
            }
            InputContent::ImageUrl(u) => {
                g.parts.push(image_part_exec(u.as_str()));
                g.image = true;
                assert(g.view_of().parts =~= before.parts.push(image_part(u@)));
            }
            InputContent::ToolCall { id, name, arguments } => {
                g.calls.push(call_wire_exec(id.as_str(), name.as_str(), arguments.as_str()));
                assert(g.view_of().calls =~= before.calls.push(call_wire(id@, name@, arguments@)));
            }
            InputContent::ToolResult { call_id, output } => {
                if g.call_id.is_some() {
                    assert(chat_turn(role, content@.take(j + 1)) is Err);
                    proof { lemma_fault_sticks(role, content@, j as int + 1); }
                    return Err(ChatFault::TwoResults);
                }
                g.call_id = Some(call_id.clone());
                g.text.push(output.clone());
                assert(g.view_of().text =~= before.text.push(output@));
            }
            InputContent::Reasoning { .. } => {}
        }
        assert(g.view_of() == (match chat_step(role, Ok(before), content@[j as int]) { Ok(s) => s, Err(_) => before }));
        j = j + 1;
    }
    assert(content@.take(content@.len() as int) == content@);
    Ok(g)
}

/// Once a turn faults, every longer prefix faults the same way.
proof fn lemma_fault_sticks(role: Role, cs: Seq<InputContent>, k: int)
    requires
        0 < k <= cs.len(),
        chat_turn(role, cs.take(k)) is Err,
    ensures
        chat_turn(role, cs) == chat_turn(role, cs.take(k)),
    decreases cs.len() - k,
{
    if k < cs.len() {
        assert(cs.take(k + 1).drop_last() == cs.take(k));
        lemma_fault_sticks(role, cs, k + 1);
    } else {
        assert(cs.take(k) == cs);
    }
}


/// A gathered turn on the wire, unless it carries nothing.
fn message_exec(role: Role, g: Gathered) -> (r: Option<Json>)
    ensures
        match message_wire(role, g.view_of()) {
            Some(m) => r matches Some(j) && j@ == m,
            None => r is None,
        },
{
    let ghost s = g.view_of();
    assert(s.calls.len() == g.calls@.len());
    assert(s.text.len() == g.text@.len());
    let content = if g.image {
        Some(Json::array(g.parts.as_slice()))
    } else if g.text.len() > 0 {
        Some(Json::string(crate::text::join(&g.text, "\n").as_str()))
    } else {
        None
    };
    assert(match turn_content(s) { Some(c) => content matches Some(j) && j@ == c, None => content is None });
    if content.is_none() && g.calls.len() == 0 {
        return None;
    }
    let content_json = match content {
        Some(c) => c,
        None => Json::null(),
    };
    let mut entries = vec![entry("content", content_json), entry("role", Json::string(role_text(role)))];
    let ghost head = entries@.map_values(|e: (String, Json)| (e.0@, e.1@));
    assert(head =~= seq![
        ("content"@, match turn_content(s) { Some(c) => c, None => "null"@ }),
        ("role"@, json_from_string(role_name(role))),
    ]);
    let has_calls = g.calls.len() > 0;
    if has_calls {
        entries.push(entry("tool_calls", Json::array(g.calls.as_slice())));
    }
    let ghost mid = entries@.map_values(|e: (String, Json)| (e.0@, e.1@));
    assert(mid =~= head + (if s.calls.len() > 0 { seq![("tool_calls"@, json_array_from(s.calls))] } else { Seq::empty() }));
    match g.call_id {
        Some(id) => {
            entries.push(entry("tool_call_id", Json::string(id.as_str())));
        }
        None => {}
    }
    assert(entries@.map_values(|e: (String, Json)| (e.0@, e.1@)) =~= mid
        + (match s.call_id { Some(id) => seq![("tool_call_id"@, json_from_string(id))], None => Seq::empty() }));
    assert(entries@.map_values(|e: (String, Json)| (e.0@, e.1@)) == message_entries(role, s));
    Some(object_of(entries))
}


/// `request` is the body built from `value`, with these messages and model.
pub open spec fn is_body(req: Request, value: GenerateRequest, field: TokenLimitField, messages: Seq<Seq<char>>, model: Seq<char>) -> bool {
    &&& req.model@ == model
    &&& req.messages@.map_values(|j: Json| j@) == messages
    &&& field == TokenLimitField::MaxTokens ==> req.max_tokens == value.max_tokens && req.max_completion_tokens is None
    &&& field == TokenLimitField::MaxCompletionTokens ==> req.max_completion_tokens == value.max_tokens && req.max_tokens is None
    &&& req.temperature == value.temperature
    &&& req.top_p == value.top_p
    &&& req.reasoning_effort == value.reasoning_effort
    &&& json_opt_view(req.response_format) == match value.response_format { Some(f) => Some(format_wire(f)), None => None }
    &&& req.tools@.map_values(|j: Json| j@) == value.tools@.map_values(|t: ToolDefinition| tool_wire(t))
    &&& json_opt_view(req.tool_choice) == match value.tool_choice { Some(c) => Some(choice_wire(c)), None => None }
    &&& req.metadata == value.metadata
    &&& req.stream is None
    &&& req.stream_options is None
}

fn format_exec(f: &ResponseFormat) -> (r: Json)
    ensures
        r@ == format_wire(*f),
{
    match f {
        ResponseFormat::Text => {
            let e = vec![entry("type", Json::string("text"))];
            assert(e@.map_values(|e: (String, Json)| (e.0@, e.1@)) =~= seq![("type"@, json_from_string("text"@))]);
            object_of(e)
        }
        ResponseFormat::JsonObject => {
            let e = vec![entry("type", Json::string("json_object"))];
            assert(e@.map_values(|e: (String, Json)| (e.0@, e.1@)) =~= seq![("type"@, json_from_string("json_object"@))]);
            object_of(e)
        }
        ResponseFormat::JsonSchema { name, schema, strict } => {
            let inner = vec![
                entry("name", Json::string(name.as_str())),
                entry("schema", schema.duplicate()),
                entry("strict", Json::boolean(*strict)),
            ];
            assert(inner@.map_values(|e: (String, Json)| (e.0@, e.1@)) =~= seq![
                ("name"@, json_from_string(name@)),
                ("schema"@, schema@),
                ("strict"@, bool_text(*strict)),
            ]);
            let e = vec![entry("json_schema", object_of(inner)), entry("type", Json::string("json_schema"))];
            assert(e@.map_values(|e: (String, Json)| (e.0@, e.1@)) =~= seq![
                ("json_schema"@, json_object_from(seq![
                    ("name"@, json_from_string(name@)),
                    ("schema"@, schema@),
                    ("strict"@, bool_text(*strict)),
                ])),
                ("type"@, json_from_string("json_schema"@)),
            ]);
            object_of(e)
        }
    }
}

fn choice_exec(c: &ToolChoice) -> (r: Json)
    ensures
        r@ == choice_wire(*c),
{
    match c {
        ToolChoice::Auto => Json::string("auto"),
        ToolChoice::NoTools => Json::string("none"),
        ToolChoice::Required => Json::string("required"),
        ToolChoice::Named(name) => {
            let inner = vec![entry("name", Json::string(name.as_str()))];
            assert(inner@.map_values(|e: (String, Json)| (e.0@, e.1@)) =~= seq![("name"@, json_from_string(name@))]);
            let e = vec![entry("function", object_of(inner)), entry("type", Json::string("function"))];
            assert(e@.map_values(|e: (String, Json)| (e.0@, e.1@)) =~= seq![
                ("function"@, json_object_from(seq![("name"@, json_from_string(name@))])),
                ("type"@, json_from_string("function"@)),
            ]);
            object_of(e)
        }
    }
}

fn tool_exec(t: &ToolDefinition) -> (r: Json)
    ensures
        r@ == tool_wire(*t),
{
    let mut inner = vec![entry("name", Json::string(t.name.as_str()))];
    let ghost a = inner@.map_values(|e: (String, Json)| (e.0@, e.1@));
    match &t.description {
        Some(d) => inner.push(entry("description", Json::string(d.as_str()))),
        None => {}
    }
    let ghost b = inner@.map_values(|e: (String, Json)| (e.0@, e.1@));
    assert(b =~= a + (match t.description { Some(d) => seq![("description"@, json_from_string(d@))], None => Seq::empty() }));
    inner.push(entry("parameters", t.parameters.duplicate()));
    let ghost c = inner@.map_values(|e: (String, Json)| (e.0@, e.1@));
    assert(c =~= b + seq![("parameters"@, t.parameters@)]);
    match t.strict {
        Some(x) => inner.push(entry("strict", Json::boolean(x))),
        None => {}
    }
    assert(inner@.map_values(|e: (String, Json)| (e.0@, e.1@)) =~= c
        + (match t.strict { Some(x) => seq![("strict"@, bool_text(x))], None => Seq::empty() }));
    assert(a =~= seq![("name"@, json_from_string(t.name@))]);
    let ghost members = inner@.map_values(|e: (String, Json)| (e.0@, e.1@));
    assert(members == tool_members(*t));
    let e = vec![entry("function", object_of(inner)), entry("type", Json::string("function"))];
    assert(e@.map_values(|e: (String, Json)| (e.0@, e.1@)) =~= seq![
        ("function"@, json_object_from(members)),
        ("type"@, json_from_string("function"@)),
    ]);
    object_of(e)
}

fn copy_json(j: &Option<Json>) -> (r: Option<Json>)
    ensures
        r == *j,
{
    match j {
        Some(x) => Some(x.duplicate()),
        None => None,
    }
}

/// What `Request::build` answers for `value` on `config`.
pub open spec fn built(value: GenerateRequest, config: ProviderConfig, r: Result<Request, ProviderError>) -> bool {
    &&& value.previous_response_id is Some ==>
            r == Err::<Request, ProviderError>(ProviderError::UnsupportedCapability {
                provider: config.name, capability: CONVERSATION_CONTINUATION })
    &&& value.previous_response_id is None ==> match chat_messages(value.messages@) {
            Err(ChatFault::TwoResults) => r matches Err(ProviderError::InvalidRequest { provider, message })
                && provider == config.name && message@ == ONE_RESULT_PER_MESSAGE@,
            Ok(messages) => match resolved_model(config, value@) {
                None => r matches Err(ProviderError::InvalidRequest { provider, message })
                    && provider == config.name && message@ == no_model_message(),
                Some(model) => r matches Ok(req) && is_body(req, value, config.token_limit_field, messages, model),
            },
        }
}

impl Request {
    /// Converts a neutral request into this dialect's body.
    ///
    /// Refuses `previous_response_id` (this API is stateless) and a tool turn
    /// answering more than one call, then resolves the model. An image may
    /// ride on any turn. Reasoning parts are left behind: this format
    /// has no place for them and no replay requirement either.
    pub fn build(value: &GenerateRequest, config: &ProviderConfig) -> (r: Result<Request, ProviderError>)
        ensures
            built(*value, *config, r),
    {
        if value.previous_response_id.is_some() {
            return Err(unsupported(config, CONVERSATION_CONTINUATION));
        }
        let mut messages: Vec<Json> = Vec::new();
        let mut i: usize = 0;
        assert(value.messages@.take(0) =~= Seq::<Message>::empty());
        assert(messages@.map_values(|j: Json| j@) =~= Seq::<Seq<char>>::empty());
        while i < value.messages.len()
            invariant
                i <= value.messages@.len(),
                value.previous_response_id is None,
                chat_messages(value.messages@.take(i as int)) == Ok::<Seq<Seq<char>>, ChatFault>(messages@.map_values(|j: Json| j@)),
            decreases value.messages@.len() - i,
        {
            let ghost ms = value.messages@.take(i + 1);
            assert(ms.drop_last() == value.messages@.take(i as int));
            assert(ms.last() == value.messages@[i as int]);
            let message = &value.messages[i];
            match gather(message.role, &message.content) {
                Err(ChatFault::TwoResults) => {
                    proof { lemma_messages_fault_sticks(value.messages@, i as int + 1); }
                    return Err(ProviderError::InvalidRequest {
                        provider: config.name.clone(),
                        message: crate::text::owned(ONE_RESULT_PER_MESSAGE),
                    });
                }
                Ok(g) => {
                    let ghost before = messages@.map_values(|j: Json| j@);
                    match message_exec(message.role, g) {
                        Some(m) => {
                            messages.push(m);
                            assert(messages@.map_values(|j: Json| j@) =~= before.push(m@));
                        }
                        None => {}
                    }
                }
            }
            i = i + 1;
        }
        assert(value.messages@.take(value.messages@.len() as int) == value.messages@);
        let response_format = match &value.response_format {
            Some(f) => Some(format_exec(f)),
            None => None,
        };
        let tool_choice = match &value.tool_choice {
            Some(c) => Some(choice_exec(c)),
            None => None,
        };
        let mut tools: Vec<Json> = Vec::new();
        let mut k: usize = 0;
        assert(tools@.map_values(|j: Json| j@) =~= value.tools@.take(0).map_values(|t: ToolDefinition| tool_wire(t)));
        while k < value.tools.len()
            invariant
                k <= value.tools@.len(),
                tools@.map_values(|j: Json| j@) == value.tools@.take(k as int).map_values(|t: ToolDefinition| tool_wire(t)),
            decreases value.tools@.len() - k,
        {
            let ghost before = tools@.map_values(|j: Json| j@);
            let w = tool_exec(&value.tools[k]);
            tools.push(w);
            assert(tools@.map_values(|j: Json| j@) =~= before.push(tool_wire(value.tools@[k as int])));
            assert(value.tools@.take(k + 1) == value.tools@.take(k as int).push(value.tools@[k as int]));
            assert(value.tools@.take(k + 1).map_values(|t: ToolDefinition| tool_wire(t))
                =~= value.tools@.take(k as int).map_values(|t: ToolDefinition| tool_wire(t)).push(tool_wire(value.tools@[k as int])));
            k = k + 1;
        }
        assert(value.tools@.take(value.tools@.len() as int) == value.tools@);
        let model = match config.model_for(value) {
            Ok(m) => m,
            Err(e) => {
                return Err(e);
            }
        };
        let (max_tokens, max_completion_tokens) = match config.token_limit_field {
            TokenLimitField::MaxTokens => (value.max_tokens, None),
            TokenLimitField::MaxCompletionTokens => (None, value.max_tokens),
        };
        Ok(Request {
            model,
            messages,
            max_tokens,
            max_completion_tokens,
            temperature: value.temperature,
            top_p: value.top_p,
            reasoning_effort: value.reasoning_effort,
            response_format,
            tools,
            tool_choice,
            metadata: copy_json(&value.metadata),
            stream: None,
            stream_options: None,
        })
    }

    /// Marks this body as a streaming request that reports usage: without
    /// `include_usage` this dialect sends no token counts when streaming.
    pub fn streaming(self) -> (r: Request)
        ensures
            r == (Request { stream: Some(true), stream_options: r.stream_options, ..self }),
            r.stream_options matches Some(o) && o@ == json_object_from(seq![("include_usage"@, "true"@)]),
    {
        let e = vec![entry("include_usage", Json::boolean(true))];
        assert(e@.map_values(|e: (String, Json)| (e.0@, e.1@)) =~= seq![("include_usage"@, bool_text(true))]);
        Request { stream: Some(true), stream_options: Some(object_of(e)), ..self }
    }
}

/// Once the transcript faults, every longer prefix faults the same way.
proof fn lemma_messages_fault_sticks(ms: Seq<Message>, k: int)
    requires
        0 < k <= ms.len(),
        chat_messages(ms.take(k)) is Err,
        chat_messages(ms.take(k - 1)) is Ok,
    ensures
        chat_messages(ms) == chat_messages(ms.take(k)),
    decreases ms.len() - k,
{
    if k < ms.len() {
        assert(ms.take(k + 1).drop_last() == ms.take(k));
        lemma_messages_fault_sticks_from(ms, k + 1);
    } else {
        assert(ms.take(k) == ms);
    }
}

proof fn lemma_messages_fault_sticks_from(ms: Seq<Message>, k: int)
    requires
        1 < k <= ms.len(),
        chat_messages(ms.take(k - 1)) is Err,
    ensures
        chat_messages(ms) == chat_messages(ms.take(k - 1)),
    decreases ms.len() - k,
{
    assert(ms.take(k).drop_last() == ms.take(k - 1));
    if k < ms.len() {
        lemma_messages_fault_sticks_from(ms, k + 1);
    } else {
        assert(ms.take(k) == ms);
    }
}


/// A Chat Completions response, as the wire carries it.
#[derive(Debug, Clone, PartialEq, Eq)]
pub struct Response {
    pub id: String,
    pub model: String,
    pub choices: Vec<Choice>,
    pub usage: Option<ResponseUsage>,
    /// Every top-level field not named above, verbatim.
    pub extra: Vec<(String, Json)>,
}

/// One candidate answer.
#[derive(Debug, Clone, PartialEq, Eq)]
pub struct Choice {
    pub message: ChoiceMessage,
    pub finish_reason: Option<String>,
}

/// The assistant turn inside a choice.
#[derive(Debug, Clone, PartialEq, Eq)]
pub struct ChoiceMessage {
    pub content: Option<String>,
    pub refusal: Option<String>,
    pub tool_calls: Vec<ResponseToolCall>,
}

/// A tool call inside a choice.
#[derive(Debug, Clone, PartialEq, Eq)]
pub struct ResponseToolCall {
    pub id: String,
    pub function: ResponseFunction,
}

/// The function a tool call names, with its arguments as a JSON string.
#[derive(Debug, Clone, PartialEq, Eq)]
pub struct ResponseFunction {
    pub name: String,
    pub arguments: String,
}

/// Token accounting, in this dialect's names.
#[derive(Debug, Clone, Copy, PartialEq, Eq)]
pub struct ResponseUsage {
    pub prompt_tokens: u64,
    pub completion_tokens: u64,
    pub total_tokens: u64,
}

/// The status a `finish_reason` maps to. `content_filter` stays `Other`:
/// the request succeeded and the endpoint withheld part of the answer.
pub open spec fn finish_status(reason: Option<Seq<char>>) -> StatusView {
    match reason {
        None => StatusView::Completed,
        Some(s) => if s == "stop"@ {
            StatusView::Completed
        } else if s == "length"@ {
            StatusView::Incomplete
        } else if s == "tool_calls"@ || s == "function_call"@ {
            StatusView::RequiresAction
        } else {
            StatusView::Other(s)
        },
    }
}

pub open spec fn opt_chars(s: Option<String>) -> Option<Seq<char>> {
    match s {
        Some(t) => Some(t@),
        None => None,
    }
}

/// Arguments as reported: an empty string reads as an empty object.
pub open spec fn arguments_or_empty(a: Seq<char>) -> Seq<char> {
    if a.len() == 0 { "{}"@ } else { a }
}

/// The parts one choice produces: its text, its refusal, then its calls.
pub open spec fn choice_parts(m: ChoiceMessage) -> Seq<PartView> {
    (match m.content { Some(t) => if t@.len() > 0 { seq![PartView::Text(t@)] } else { Seq::empty() }, None => Seq::empty() })
    + (match m.refusal { Some(t) => if t@.len() > 0 { seq![PartView::Refusal(t@)] } else { Seq::empty() }, None => Seq::empty() })
    + m.tool_calls@.map_values(|c: ResponseToolCall|
        PartView::ToolCall(c.id@, c.function.name@, arguments_or_empty(c.function.arguments@)))
}

pub open spec fn entries_view(e: Seq<(String, Json)>) -> Seq<(Seq<char>, Seq<char>)> {
    e.map_values(|x: (String, Json)| (x.0@, x.1@))
}

/// The note added to the metadata of a response with no choices.
pub const NO_CHOICES: &'static str = "no choices returned";

/// Maps `finish_reason` onto the neutral status.
pub fn parse_finish_reason(reason: Option<String>) -> (r: ResponseStatus)
    ensures
        status_view(r) == finish_status(opt_chars(reason)),
{
    match reason {
        None => ResponseStatus::Completed,
        Some(s) => {
            if crate::text::str_eq(s.as_str(), "stop") {
                ResponseStatus::Completed
            } else if crate::text::str_eq(s.as_str(), "length") {
                ResponseStatus::Incomplete
            } else if crate::text::str_eq(s.as_str(), "tool_calls") || crate::text::str_eq(s.as_str(), "function_call") {
                ResponseStatus::RequiresAction
            } else {
                ResponseStatus::Other(s)
            }
        }
    }
}

/// The parts of one choice, in order.
fn choice_content(m: ChoiceMessage) -> (r: Vec<OutputContent>)
    ensures
        r@.map_values(|o: OutputContent| part_view(o)) == choice_parts(m),
{
    let ghost calls = m.tool_calls@;
    let mut out: Vec<OutputContent> = Vec::new();
    match m.content {
        Some(t) => {
            if !t.as_str().is_empty() {
                out.push(OutputContent::Text(t));
            }
        }
        None => {}
    }
    match m.refusal {
        Some(t) => {
            if !t.as_str().is_empty() {
                out.push(OutputContent::Refusal(t));
            }
        }
        None => {}
    }
    let ghost head = out@.map_values(|o: OutputContent| part_view(o));
    assert(head =~= (match m.content { Some(t) => if t@.len() > 0 { seq![PartView::Text(t@)] } else { Seq::empty() }, None => Seq::empty() })
        + (match m.refusal { Some(t) => if t@.len() > 0 { seq![PartView::Refusal(t@)] } else { Seq::empty() }, None => Seq::empty() }));
    let mut i: usize = 0;
    let tool_calls = m.tool_calls;
    while i < tool_calls.len()
        invariant
            i <= tool_calls@.len(),
            tool_calls@ == calls,
            out@.map_values(|o: OutputContent| part_view(o)) == head + calls.take(i as int).map_values(|c: ResponseToolCall|
                PartView::ToolCall(c.id@, c.function.name@, arguments_or_empty(c.function.arguments@))),
        decreases tool_calls@.len() - i,
    {
        let call = &tool_calls[i];
        let arguments = if call.function.arguments.as_str().is_empty() {
            crate::text::owned("{}")
        } else {
            call.function.arguments.clone()
        };
        let ghost before = out@.map_values(|o: OutputContent| part_view(o));
        out.push(OutputContent::ToolCall { id: call.id.clone(), name: call.function.name.clone(), arguments });
        assert(calls.take(i + 1) == calls.take(i as int).push(calls[i as int]));
        assert(out@.map_values(|o: OutputContent| part_view(o)) =~= before.push(part_view(out@[i + head.len()])));
        assert(out@.map_values(|o: OutputContent| part_view(o)) =~= head + calls.take(i + 1).map_values(|c: ResponseToolCall|
                PartView::ToolCall(c.id@, c.function.name@, arguments_or_empty(c.function.arguments@))));
        i = i + 1;
    }
    assert(calls.take(calls.len() as int) == calls);
    out
}

impl From<Response> for GenerateResponse {
    /// Normalizes a response. The first choice wins: one answer is all the
    /// neutral response models. A response with no choices is `Completed`
    /// with no content, and says so in its metadata.
    fn from(value: Response) -> (r: GenerateResponse)
        ensures
            r.id == value.id,
            r.model == value.model,
            value.choices@.len() > 0 ==> status_view(r.status) == finish_status(opt_chars(value.choices@[0].finish_reason))
                && r.content@.map_values(|o: OutputContent| part_view(o)) == choice_parts(value.choices@[0].message),
            value.choices@.len() == 0 ==> r.status == ResponseStatus::Completed && r.content@.len() == 0,
            r.usage == match value.usage {
                Some(u) => Some(Usage { input_tokens: u.prompt_tokens, output_tokens: u.completion_tokens, total_tokens: u.total_tokens }),
                None => None,
            },
            r.provider_metadata matches Some(m) && m@ == json_object_from(
                if value.choices@.len() > 0 {
                    entries_view(value.extra@)
                } else {
                    entries_view(value.extra@).push(("freya_note"@, json_from_string(NO_CHOICES@)))
                }),
    {
        let mut extra = value.extra;
        let ghost extra0 = extra@;
        let mut choices = value.choices;
        let (status, content) = if choices.len() > 0 {
            let choice = choices.remove(0);
            (parse_finish_reason(choice.finish_reason), choice_content(choice.message))
        } else {
            extra.push((crate::text::owned("freya_note"), Json::string(NO_CHOICES)));
            assert(entries_view(extra@) =~= entries_view(extra0).push(("freya_note"@, json_from_string(NO_CHOICES@))));
            (ResponseStatus::Completed, Vec::new())
        };
        let usage = match value.usage {
            Some(u) => Some(Usage { input_tokens: u.prompt_tokens, output_tokens: u.completion_tokens, total_tokens: u.total_tokens }),
            None => None,
        };
        GenerateResponse {
            id: value.id,
            model: value.model,
            status,
            content,
            usage,
            provider_metadata: Some(Json::object(extra.as_slice())),
        }
    }
}

/// The conversion is specified by the contract of `from` itself; no spec
/// function stands for it.
impl vstd::std_specs::convert::FromSpecImpl<Response> for GenerateResponse {
    open spec fn obeys_from_spec() -> bool {
        false
    }

    open spec fn from_spec(v: Response) -> GenerateResponse {
        arbitrary()
    }
}


/// The status a streamed `finish_reason` names: the one a whole response
/// with that reason gets, so a drained stream reads as `generate` would.
pub open spec fn stream_status(reason: Option<Seq<char>>) -> Option<StatusView> {
    match reason {
        Some(s) => Some(finish_status(Some(s))),
        None => None,
    }
}

/// Token counts, when the frame reports all three.
pub open spec fn frame_usage(value: Option<Seq<char>>) -> Option<Usage> {
    let u = member(value, "usage"@);
    match (unsigned_at(member(u, "prompt_tokens"@)), unsigned_at(member(u, "completion_tokens"@)), unsigned_at(member(u, "total_tokens"@))) {
        (Some(a), Some(b), Some(c)) => Some(Usage { input_tokens: a, output_tokens: b, total_tokens: c }),
        _ => None,
    }
}

/// The slot a streamed call names; this dialect counts tool calls only.
pub open spec fn slot_of(call: Option<Seq<char>>) -> usize {
    match unsigned_at(member(call, "index"@)) {
        Some(n) => n as usize,
        None => 0,
    }
}

/// What one streamed call fragment says: a start when it carries an id, and
/// any non-empty argument text.
pub open spec fn call_deltas(call: Seq<char>) -> Seq<DeltaView> {
    let c = Some(call);
    let slot = slot_of(c);
    let function = member(c, "function"@);
    (match string_at(member(c, "id"@)) {
        Some(id) => seq![DeltaView::ToolStart(slot, id, match string_at(member(function, "name"@)) {
            Some(n) => n,
            None => Seq::empty(),
        })],
        None => Seq::empty(),
    })
    + (match string_at(member(function, "arguments"@)) {
        Some(f) => if f.len() > 0 { seq![DeltaView::ToolArgs(slot, f)] } else { Seq::empty() },
        None => Seq::empty(),
    })
}

pub open spec fn calls_deltas(cs: Seq<Seq<char>>) -> Seq<DeltaView>
    decreases cs.len(),
{
    if cs.len() == 0 {
        Seq::empty()
    } else {
        calls_deltas(cs.drop_last()) + call_deltas(cs.last())
    }
}

/// What one frame says. The `[DONE]` sentinel and a frame that is not JSON
/// say nothing.
pub open spec fn chat_deltas(data: Seq<char>) -> Seq<DeltaView> {
    if trim(data) == "[DONE]"@ {
        Seq::empty()
    } else {
        match json_canonical(data) {
            None => Seq::empty(),
            Some(v) => {
                let value = Some(v);
                let id = string_at(member(value, "id"@));
                let model = string_at(member(value, "model"@));
                let usage = frame_usage(value);
                let choice = first_at(member(value, "choices"@));
                let status = stream_status(string_at(member(choice, "finish_reason"@)));
                let delta = member(choice, "delta"@);
                (match string_at(member(delta, "content"@)) {
                    Some(t) => if t.len() > 0 { seq![DeltaView::Text(t)] } else { Seq::empty() },
                    None => Seq::empty(),
                })
                + (match elements_at(member(delta, "tool_calls"@)) {
                    Some(cs) => calls_deltas(cs),
                    None => Seq::empty(),
                })
                + (if id is Some || model is Some || status is Some || usage is Some {
                    seq![DeltaView::Meta(id, model, status, usage, None)]
                } else {
                    Seq::empty()
                })
            },
        }
    }
}

/// Decodes Chat Completions frames. Stateless: a call's id and name arrive
/// in its first frame and are forwarded as they come.
#[derive(Debug, Clone, Copy, PartialEq, Eq)]
pub struct Decoder;

fn stream_status_exec(reason: Option<String>) -> (r: Option<ResponseStatus>)
    ensures
        match r { Some(x) => Some(status_view(x)), None => None } == stream_status(opt_chars(reason)),
{
    match reason {
        Some(s) => Some(parse_finish_reason(Some(s))),
        None => None,
    }
}

fn frame_usage_exec(value: &Option<Json>) -> (r: Option<Usage>)
    ensures
        r == frame_usage(json_opt_view(*value)),
{
    let u = Json::member_of(value, "usage");
    let a = Json::unsigned_of(&Json::member_of(&u, "prompt_tokens"));
    let b = Json::unsigned_of(&Json::member_of(&u, "completion_tokens"));
    let c = Json::unsigned_of(&Json::member_of(&u, "total_tokens"));
    match (a, b, c) {
        (Some(a), Some(b), Some(c)) => Some(Usage { input_tokens: a, output_tokens: b, total_tokens: c }),
        _ => None,
    }
}

fn call_deltas_exec(call: &Json, out: &mut Vec<RawDelta>)
    ensures
        deltas_view(final(out)@) == deltas_view(old(out)@) + call_deltas(call@),
{
    let c = Some(call.duplicate());
    assert(json_opt_view(c) == Some(call@));
    let slot: usize = match Json::unsigned_of(&Json::member_of(&c, "index")) {
        Some(n) => n as usize,
        None => 0,
    };
    let function = Json::member_of(&c, "function");
    let ghost start = deltas_view(out@);
    match Json::string_of(&Json::member_of(&c, "id")) {
        Some(id) => {
            let name = match Json::string_of(&Json::member_of(&function, "name")) {
                Some(n) => n,
                None => String::new(),
            };
            push_delta(out, RawDelta::ToolStart { slot, id, name });
        }
        None => {}
    }
    let ghost mid = deltas_view(out@);
    match Json::string_of(&Json::member_of(&function, "arguments")) {
        Some(f) => {
            if !f.as_str().is_empty() {
                push_delta(out, RawDelta::ToolArgs { slot, fragment: f });
            }
        }
        None => {}
    }
    assert(deltas_view(out@) =~= start + call_deltas(call@));
}

impl Decoder {
    /// Turns one frame into the deltas it carries. Never fails: a frame this
    /// dialect does not recognize carries nothing.
    pub fn decode(&mut self, frame: &SseFrame, endpoint: &str, out: &mut Vec<RawDelta>) -> (r: Result<(), ProviderError>)
        ensures
            r is Ok,
            deltas_view(final(out)@) == deltas_view(old(out)@) + chat_deltas(frame.data@),
    {
        let ghost start = deltas_view(out@);
        let trimmed = crate::sse::trim_text(frame.data.as_str());
        if crate::text::str_eq(trimmed.as_str(), "[DONE]") {
            assert(deltas_view(out@) =~= start + chat_deltas(frame.data@));
            return Ok(());
        }
        let value = match Json::parse(frame.data.as_str()) {
            Some(v) => Some(v),
            None => {
                assert(deltas_view(out@) =~= start + chat_deltas(frame.data@));
                return Ok(());
            }
        };
        let id = Json::string_of(&Json::member_of(&value, "id"));
        let model = Json::string_of(&Json::member_of(&value, "model"));
        let usage = frame_usage_exec(&value);
        let choice = Json::first_of(&Json::member_of(&value, "choices"));
        let status = stream_status_exec(Json::string_of(&Json::member_of(&choice, "finish_reason")));
        let delta = Json::member_of(&choice, "delta");
        match Json::string_of(&Json::member_of(&delta, "content")) {
            Some(t) => {
                if !t.as_str().is_empty() {
                    push_delta(out, RawDelta::Text(t));
                }
            }
            None => {}
        }
        let ghost after_text = deltas_view(out@);
        match Json::elements_of(&Json::member_of(&delta, "tool_calls")) {
            Some(calls) => {
                let ghost cs = calls@.map_values(|x: Json| x@);
                let mut i: usize = 0;
                assert(cs.take(0) =~= Seq::<Seq<char>>::empty());
                assert(deltas_view(out@) =~= after_text + calls_deltas(cs.take(0)));
                while i < calls.len()
                    invariant
                        i <= calls@.len(),
                        cs == calls@.map_values(|x: Json| x@),
                        deltas_view(out@) == after_text + calls_deltas(cs.take(i as int)),
                    decreases calls@.len() - i,
                {
                    assert(cs.take(i + 1).drop_last() == cs.take(i as int));
                    assert(cs.take(i + 1).last() == calls@[i as int]@);
                    call_deltas_exec(&calls[i], out);
                    assert(deltas_view(out@) =~= after_text + calls_deltas(cs.take(i + 1)));
                    i = i + 1;
                }
                assert(cs.take(cs.len() as int) == cs);
            }
            None => {}
        }
        let ghost after_calls = deltas_view(out@);
        if id.is_some() || model.is_some() || status.is_some() || usage.is_some() {
            push_delta(out, RawDelta::Meta { id, model, status, usage, provider_metadata: None });
        }
        assert(deltas_view(out@) =~= start + chat_deltas(frame.data@));
        Ok(())
    }
}

/// The keyword a fixed tool choice goes by on the OpenAI wires.
pub open spec fn choice_keyword(c: ToolChoice) -> Option<Seq<char>> {
    match c {
        ToolChoice::Auto => Some("auto"@),
        ToolChoice::NoTools => Some("none"@),
        ToolChoice::Required => Some("required"@),
        ToolChoice::Named(_) => None,
    }
}

/// Every fixed tool choice is sent as the JSON string of its own keyword,
/// no two choices share one, and the Responses wire sends the same value,
/// so forcing a tool call can never read as leaving it to the model.
pub proof fn law_each_fixed_choice_is_sent_as_its_own_keyword(c: ToolChoice, d: ToolChoice)
    ensures
        (choice_keyword(c) is None) == (c is Named),
        choice_keyword(c) matches Some(k) ==> choice_wire(c) == json_from_string(k),
        choice_keyword(c) matches Some(k) ==> crate::openai_responses::choice_wire(c) == choice_wire(c),
        choice_keyword(c) is Some && choice_keyword(c) == choice_keyword(d) ==> c == d,
{
    reveal_strlit("auto");
    reveal_strlit("none");
    reveal_strlit("required");
    assert("auto"@[0] != "none"@[0]);
    assert("auto"@.len() != "required"@.len());
    assert("none"@.len() != "required"@.len());
}

/// Only a choice that stopped on its own reads as complete; one cut off at
/// the length cap reads as incomplete, one that asked for tools (in either
/// of the two ways the format has had) as waiting on the caller, and every
/// other reason is kept as it came. A stream reads a reason as a whole
/// response does.
pub proof fn law_only_a_stopped_choice_reads_as_completed(reason: Option<Seq<char>>)
    ensures
        (finish_status(reason) == StatusView::Completed) == (reason is None || reason == Some("stop"@)),
        (finish_status(reason) == StatusView::Incomplete) == (reason == Some("length"@)),
        (finish_status(reason) == StatusView::RequiresAction)
            == (reason == Some("tool_calls"@) || reason == Some("function_call"@)),
        reason matches Some(s) ==> (finish_status(reason) is Other ==> finish_status(reason)->Other_0 == s),
        reason matches Some(s) ==> stream_status(Some(s)) == Some(finish_status(reason)),
{
    reveal_strlit("stop");
    reveal_strlit("length");
    reveal_strlit("tool_calls");
    reveal_strlit("function_call");
    assert("stop"@.len() != "length"@.len());
    assert("stop"@.len() != "tool_calls"@.len());
    assert("stop"@.len() != "function_call"@.len());
    assert("length"@.len() != "tool_calls"@.len());
    assert("length"@.len() != "function_call"@.len());
}

} // verus!
