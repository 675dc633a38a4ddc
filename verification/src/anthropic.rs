//! The Anthropic Messages dialect: the request body, the response, and the
//! stream decoder.
//!
//! Tool calls and tool results are content blocks nested inside a message
//! here, there are only two roles on the wire, and system turns are hoisted
//! into a field of their own. Every request must carry `max_tokens`.

use vstd::prelude::*;
use crate::text::joined;
use crate::config::{ProviderConfig, resolved_model, no_model_message};
use crate::error::ProviderError;
use crate::json::{
    Json, entry, object_of, json_array_from, json_canonical, json_fields, json_from_string,
    json_object_from, json_opt_view, json_with_member, bool_text, member, string_at,
    unsigned_at,
};
use crate::sse::{SseFrame, event_name};
use crate::stream::{DeltaView, RawDelta, deltas_view, push_delta, key_at, put_key, lemma_key_prefix, lemma_key_bounds};
use crate::model::{
    GenerateRequest, GenerateResponse, InputContent, Message, OutputContent, PartView, ReasoningEffort,
    ResponseFormat, ResponseStatus, Role, StatusView, ToolChoice, ToolDefinition, Usage, effort_name,
    effort_text, part_view, status_view,
};
use crate::refusal::{
    unsupported, CONVERSATION_CONTINUATION, EFFORT_MINIMAL, IMAGES_OUTSIDE_USER, NON_TEXT_SYSTEM,
    SCHEMALESS_JSON,
};
use crate::sse::trim;

verus! {

/// The cap sent when the caller sets none: this API requires one on every
/// request. It is a cap, not a target.
pub const DEFAULT_MAX_TOKENS: u32 = 16000;

/// The complaint about an image data URI that is not base64.
pub const BAD_DATA_URI: &'static str = "image data URIs must be of the form 'data:<media-type>;base64,<data>'";

/// What precedes the offending text in the complaint about tool arguments.
pub const BAD_ARGUMENTS: &'static str = "tool call arguments must be a JSON object; Anthropic rejects anything else, got '";

/// The body of a Messages request.
///
/// Nested parts are held as JSON; the two sampling controls are the bits of
/// the caller's `f32`.
#[derive(Debug, Clone, PartialEq, Eq)]
pub struct Request {
    pub model: String,
    pub max_tokens: u32,
    pub messages: Vec<Json>,
    pub system: Option<String>,
    pub temperature: Option<u32>,
    pub top_p: Option<u32>,
    pub thinking: Option<Json>,
    pub output_config: Option<Json>,
    pub tools: Vec<Json>,
    pub tool_choice: Option<Json>,
    pub metadata: Option<Json>,
    pub stream: Option<bool>,
}

/// Why a request cannot be expressed in this dialect.
pub enum AnthropicFault {
    /// Something other than text in a system or developer turn.
    NonTextSystem,
    /// An image outside a user turn.
    Image,
    /// An image data URI that is not `data:<type>;base64,<data>`.
    BadDataUri,
    /// Tool arguments that are not a JSON object; carries them.
    BadArguments(Seq<char>),
}

/// `s` begins with `p`.
pub open spec fn starts_with(s: Seq<char>, p: Seq<char>) -> bool {
    p.len() <= s.len() && s.take(p.len() as int) == p
}

/// `s` ends with `p`.
pub open spec fn ends_with(s: Seq<char>, p: Seq<char>) -> bool {
    p.len() <= s.len() && s.skip(s.len() - p.len()) == p
}

/// The index of the first `c` in `s`.
pub open spec fn first_index(s: Seq<char>, c: char) -> Option<int>
    decreases s.len(),
{
    if s.len() == 0 {
        None
    } else {
        match first_index(s.drop_last(), c) {
            Some(i) => Some(i),
            None => if s.last() == c { Some(s.len() - 1) } else { None },
        }
    }
}

/// The image source block for a URL: a remote URL as is, a data URI split
/// into media type and base64 payload.
pub open spec fn image_source(url: Seq<char>) -> Option<Seq<char>> {
    if !starts_with(url, "data:"@) {
        Some(json_object_from(seq![("type"@, json_from_string("url"@)), ("url"@, json_from_string(url))]))
    } else {
        let rest = url.skip(5);
        match first_index(rest, ',') {
            None => None,
            Some(i) => {
                let media = rest.take(i);
                let data = rest.skip(i + 1);
                if !ends_with(media, ";base64"@) {
                    None
                } else {
                    Some(json_object_from(seq![
                        ("data"@, json_from_string(data)),
                        ("media_type"@, json_from_string(media.take(media.len() - 7))),
                        ("type"@, json_from_string("base64"@)),
                    ]))
                }
            }
        }
    }
}

/// Tool arguments as the structured object this API wants: blank text is an
/// empty object; anything else must parse as an object.
pub open spec fn arguments_object(raw: Seq<char>) -> Option<Seq<char>> {
    if trim(raw).len() == 0 {
        Some("{}"@)
    } else {
        match json_canonical(raw) {
            Some(v) => if json_fields(v) is Some { Some(v) } else { None },
            None => None,
        }
    }
}

pub open spec fn text_block(t: Seq<char>) -> Seq<char> {
    json_object_from(seq![("text"@, json_from_string(t)), ("type"@, json_from_string("text"@))])
}

pub open spec fn image_block(source: Seq<char>) -> Seq<char> {
    json_object_from(seq![("source"@, source), ("type"@, json_from_string("image"@))])
}

pub open spec fn tool_use_block(id: Seq<char>, name: Seq<char>, input: Seq<char>) -> Seq<char> {
    json_object_from(seq![
        ("id"@, json_from_string(id)),
        ("input"@, input),
        ("name"@, json_from_string(name)),
        ("type"@, json_from_string("tool_use"@)),
    ])
}

pub open spec fn tool_result_block(call_id: Seq<char>, output: Seq<char>) -> Seq<char> {
    json_object_from(seq![
        ("content"@, json_from_string(output)),
        ("tool_use_id"@, json_from_string(call_id)),
        ("type"@, json_from_string("tool_result"@)),
    ])
}

/// The block one part of a user or assistant turn becomes.
pub open spec fn block_of(role: Role, c: InputContent) -> Result<Seq<char>, AnthropicFault> {
    match c {
        InputContent::Text(t) => Ok(text_block(t@)),
        InputContent::ImageUrl(u) => if role != Role::User {
            Err(AnthropicFault::Image)
        } else {
            match image_source(u@) {
                Some(s) => Ok(image_block(s)),
                None => Err(AnthropicFault::BadDataUri),
            }
        },
        InputContent::ToolCall { id, name, arguments } => match arguments_object(arguments@) {
            Some(input) => Ok(tool_use_block(id@, name@, input)),
            None => Err(AnthropicFault::BadArguments(arguments@)),
        },
        InputContent::ToolResult { call_id, output } => Ok(tool_result_block(call_id@, output@)),
        InputContent::Reasoning { data } => Ok(data@),
    }
}

/// The blocks of a user or assistant turn, or the first fault among them.
pub open spec fn blocks_of(role: Role, cs: Seq<InputContent>) -> Result<Seq<Seq<char>>, AnthropicFault>
    decreases cs.len(),
{
    if cs.len() == 0 {
        Ok(Seq::empty())
    } else {
        match blocks_of(role, cs.drop_last()) {
            Err(f) => Err(f),
            Ok(prev) => match block_of(role, cs.last()) {
                Err(f) => Err(f),
                Ok(b) => Ok(prev.push(b)),
            },
        }
    }
}

/// The texts of a system or developer turn, or a fault if it holds anything else.
pub open spec fn system_texts(cs: Seq<InputContent>) -> Result<Seq<Seq<char>>, AnthropicFault>
    decreases cs.len(),
{
    if cs.len() == 0 {
        Ok(Seq::empty())
    } else {
        match system_texts(cs.drop_last()) {
            Err(f) => Err(f),
            Ok(prev) => match cs.last() {
                InputContent::Text(t) => Ok(prev.push(t@)),
                _ => Err(AnthropicFault::NonTextSystem),
            },
        }
    }
}

pub open spec fn is_system(role: Role) -> bool {
    role == Role::System || role == Role::Developer
}

/// The wire role: tool results ride on a user turn.
pub open spec fn wire_role(role: Role) -> Seq<char> {
    if role == Role::Assistant { "assistant"@ } else { "user"@ }
}

pub open spec fn message_json(role: Role, blocks: Seq<Seq<char>>) -> Seq<char> {
    json_object_from(seq![("content"@, json_array_from(blocks)), ("role"@, json_from_string(wire_role(role)))])
}

/// The system texts and the messages of a transcript, or the first fault.
/// A turn left with no blocks is dropped: the API rejects it.
pub open spec fn transcript(ms: Seq<Message>) -> Result<(Seq<Seq<char>>, Seq<Seq<char>>), AnthropicFault>
    decreases ms.len(),
{
    if ms.len() == 0 {
        Ok((Seq::empty(), Seq::empty()))
    } else {
        match transcript(ms.drop_last()) {
            Err(f) => Err(f),
            Ok((system, messages)) => {
                let m = ms.last();
                if is_system(m.role) {
                    match system_texts(m.content@) {
                        Err(f) => Err(f),
                        Ok(t) => Ok((system + t, messages)),
                    }
                } else {
                    match blocks_of(m.role, m.content@) {
                        Err(f) => Err(f),
                        Ok(b) => if b.len() > 0 {
                            Ok((system, messages.push(message_json(m.role, b))))
                        } else {
                            Ok((system, messages))
                        },
                    }
                }
            },
        }
    }
}

/// The members of `output_config`: the effort level, then the schema.
pub open spec fn output_members(effort: Option<ReasoningEffort>, format: Option<ResponseFormat>) -> Seq<(Seq<char>, Seq<char>)> {
    (match effort {
        Some(e) => if e == ReasoningEffort::Off || e == ReasoningEffort::Minimal {
            Seq::empty()
        } else {
            seq![("effort"@, json_from_string(effort_name(e)))]
        },
        None => Seq::empty(),
    })
    + (match format {
        Some(ResponseFormat::JsonSchema { schema, .. }) => seq![("format"@, json_object_from(seq![
            ("schema"@, schema@),
            ("type"@, json_from_string("json_schema"@)),
        ]))],
        _ => Seq::empty(),
    })
}

pub open spec fn choice_wire(c: ToolChoice) -> Seq<char> {
    match c {
        ToolChoice::Auto => json_object_from(seq![("type"@, json_from_string("auto"@))]),
        ToolChoice::NoTools => json_object_from(seq![("type"@, json_from_string("none"@))]),
        ToolChoice::Required => json_object_from(seq![("type"@, json_from_string("any"@))]),
        ToolChoice::Named(name) => json_object_from(seq![
            ("name"@, json_from_string(name@)),
            ("type"@, json_from_string("tool"@)),
        ]),
    }
}

pub open spec fn tool_members(t: ToolDefinition) -> Seq<(Seq<char>, Seq<char>)> {
    (match t.description { Some(d) => seq![("description"@, json_from_string(d@))], None => Seq::empty() })
    + seq![("input_schema"@, t.parameters@), ("name"@, json_from_string(t.name@))]
    + (match t.strict { Some(b) => seq![("strict"@, bool_text(b))], None => Seq::empty() })
}

pub open spec fn tool_wire(t: ToolDefinition) -> Seq<char> {
    json_object_from(tool_members(t))
}

/// The thinking setting: only `none` sets one, and it disables thinking.
pub open spec fn thinking_wire(effort: Option<ReasoningEffort>) -> Option<Seq<char>> {
    if effort == Some(ReasoningEffort::Off) {
        Some(json_object_from(seq![("type"@, json_from_string("disabled"@))]))
    } else {
        None
    }
}

/// `request` is the body built from `value`, with this transcript and model.
pub open spec fn is_body(req: Request, value: GenerateRequest, system: Seq<Seq<char>>, messages: Seq<Seq<char>>, model: Seq<char>) -> bool {
    &&& req.model@ == model
    &&& req.max_tokens == match value.max_tokens { Some(n) => n, None => DEFAULT_MAX_TOKENS }
    &&& req.messages@.map_values(|j: Json| j@) == messages
    &&& (match req.system { Some(s) => Some(s@), None => None })
        == (if system.len() > 0 { Some(joined(system, "\n\n"@)) } else { None })
    &&& req.temperature == value.temperature
    &&& req.top_p == value.top_p
    &&& json_opt_view(req.thinking) == thinking_wire(value.reasoning_effort)
    &&& json_opt_view(req.output_config) == (if output_members(value.reasoning_effort, value.response_format).len() > 0 {
            Some(json_object_from(output_members(value.reasoning_effort, value.response_format)))
        } else {
            None
        })
    &&& req.tools@.map_values(|j: Json| j@) == value.tools@.map_values(|t: ToolDefinition| tool_wire(t))
    &&& json_opt_view(req.tool_choice) == match value.tool_choice { Some(c) => Some(choice_wire(c)), None => None }
    &&& req.metadata == value.metadata
    &&& req.stream is None
}


/// The characters `chars[a..b]`, as a string.
fn chars_between(chars: &Vec<char>, a: usize, b: usize) -> (r: String)
    requires
        a <= b <= chars@.len(),
    ensures
        r@ == chars@.subrange(a as int, b as int),
{
    let mut out: Vec<char> = Vec::new();
    let mut i = a;
    while i < b
        invariant
            a <= i <= b <= chars@.len(),
            out@ == chars@.subrange(a as int, i as int),
        decreases b - i,
    {
        out.push(chars[i]);
        assert(chars@.subrange(a as int, i + 1) == chars@.subrange(a as int, i as int).push(chars@[i as int]));
        i = i + 1;
    }
    crate::text::string_of(out.as_slice())
}

fn image_source_exec(url: &str) -> (r: Option<Json>)
    ensures
        match image_source(url@) {
            Some(s) => r matches Some(j) && j@ == s,
            None => r is None,
        },
{
    let chars = crate::text::chars_of(url);
    let prefix = crate::text::chars_of("data:");
    proof { reveal_strlit("data:"); }
    let n = chars.len();
    let is_data = n >= 5 && chars[0] == prefix[0] && chars[1] == prefix[1] && chars[2] == prefix[2]
        && chars[3] == prefix[3] && chars[4] == prefix[4];
    assert(is_data == starts_with(url@, "data:"@)) by {
        if n >= 5 {
            if is_data {
                assert(url@.take(5) =~= "data:"@);
            }
        }
    }
    if !is_data {
        let e = vec![entry("type", Json::string("url")), entry("url", Json::string(url))];
        assert(e@.map_values(|e: (String, Json)| (e.0@, e.1@)) =~= seq![("type"@, json_from_string("url"@)), ("url"@, json_from_string(url@))]);
        return Some(object_of(e));
    }
    let ghost rest = url@.skip(5);
    let mut i: usize = 5;
    while i < n && chars[i] != ','
        invariant
            5 <= i <= n == chars@.len(),
            chars@ == url@,
            rest == url@.skip(5),
            forall|k: int| 5 <= k < i ==> chars@[k] != ',',
        decreases n - i,
    {
        i = i + 1;
    }
    proof { lemma_first_index(rest, ',', (i - 5) as int); }
    if i == n {
        return None;
    }
    let media = chars_between(&chars, 5, i);
    let data = chars_between(&chars, i + 1, n);
    assert(media@ == rest.take(i - 5));
    assert(data@ == rest.skip(i - 5 + 1));
    let suffix = crate::text::chars_of(";base64");
    proof { reveal_strlit(";base64"); }
    let ml = i - 5;
    let has_suffix = ml >= 7 && chars[i - 7] == suffix[0] && chars[i - 6] == suffix[1] && chars[i - 5] == suffix[2]
        && chars[i - 4] == suffix[3] && chars[i - 3] == suffix[4] && chars[i - 2] == suffix[5] && chars[i - 1] == suffix[6];
    assert(has_suffix == ends_with(media@, ";base64"@)) by {
        if ml >= 7 {
            assert(media@.len() == ml);
            if has_suffix {
                assert(media@.skip(ml - 7) =~= ";base64"@);
            } else if ends_with(media@, ";base64"@) {
                assert(media@.skip(ml - 7)[0] == chars@[i - 7]);
                assert(media@.skip(ml - 7)[1] == chars@[i - 6]);
                assert(media@.skip(ml - 7)[2] == chars@[i - 5]);
                assert(media@.skip(ml - 7)[3] == chars@[i - 4]);
                assert(media@.skip(ml - 7)[4] == chars@[i - 3]);
                assert(media@.skip(ml - 7)[5] == chars@[i - 2]);
                assert(media@.skip(ml - 7)[6] == chars@[i - 1]);
            }
        }
    }
    if !has_suffix {
        return None;
    }
    let media_type = chars_between(&chars, 5, i - 7);
    assert(media_type@ =~= media@.take(media@.len() - 7));
    let e = vec![
        entry("data", Json::string(data.as_str())),
        entry("media_type", Json::string(media_type.as_str())),
        entry("type", Json::string("base64")),
    ];
    assert(e@.map_values(|e: (String, Json)| (e.0@, e.1@)) =~= seq![
        ("data"@, json_from_string(data@)),
        ("media_type"@, json_from_string(media@.take(media@.len() - 7))),
        ("type"@, json_from_string("base64"@)),
    ]);
    Some(object_of(e))
}

/// `first_index` finds the first `c` at or after the point where the scan stopped.
proof fn lemma_first_index(s: Seq<char>, c: char, i: int)
    requires
        0 <= i <= s.len(),
        forall|k: int| 0 <= k < i ==> s[k] != c,
        i < s.len() ==> s[i] == c,
    ensures
        first_index(s, c) == (if i < s.len() { Some(i) } else { None::<int> }),
    decreases s.len(),
{
    if s.len() > 0 {
        if i < s.len() {
            if i < s.len() - 1 {
                lemma_first_index(s.drop_last(), c, i);
            } else {
                lemma_first_index(s.drop_last(), c, s.len() - 1);
            }
        } else {
            lemma_first_index(s.drop_last(), c, s.len() - 1);
        }
    }
}

fn arguments_exec(raw: &str) -> (r: Option<Json>)
    ensures
        match arguments_object(raw@) {
            Some(v) => r matches Some(j) && j@ == v,
            None => r is None,
        },
{
    let t = crate::sse::trim_text(raw);
    if t.as_str().is_empty() {
        return Some(Json::empty_object());
    }
    match Json::parse(raw) {
        Some(v) => {
            if v.as_object().is_some() {
                Some(v)
            } else {
                None
            }
        }
        None => None,
    }
}


/// A fault, as the error the request is refused with.
pub open spec fn fault_error(f: AnthropicFault, e: ProviderError, config: ProviderConfig) -> bool {
    match f {
        AnthropicFault::NonTextSystem => e == ProviderError::UnsupportedCapability { provider: config.name, capability: NON_TEXT_SYSTEM },
        AnthropicFault::Image => e == ProviderError::UnsupportedCapability { provider: config.name, capability: IMAGES_OUTSIDE_USER },
        AnthropicFault::BadDataUri => e matches ProviderError::InvalidRequest { provider, message }
            && provider == config.name && message@ == BAD_DATA_URI@,
        AnthropicFault::BadArguments(raw) => e matches ProviderError::InvalidRequest { provider, message }
            && provider == config.name && message@ == BAD_ARGUMENTS@ + raw + "'"@,
    }
}

fn text_block_exec(t: &str) -> (r: Json)
    ensures
        r@ == text_block(t@),
{
    let e = vec![entry("text", Json::string(t)), entry("type", Json::string("text"))];
    assert(e@.map_values(|e: (String, Json)| (e.0@, e.1@)) =~= seq![("text"@, json_from_string(t@)), ("type"@, json_from_string("text"@))]);
    object_of(e)
}

/// The block one part becomes, or the error it raises.
fn block_exec(role: Role, c: &InputContent, config: &ProviderConfig) -> (r: Result<Json, ProviderError>)
    ensures
        match block_of(role, *c) {
            Ok(b) => r matches Ok(j) && j@ == b,
            Err(f) => r matches Err(e) && fault_error(f, e, *config),
        },
{
    match c {
        InputContent::Text(t) => Ok(text_block_exec(t.as_str())),
        InputContent::ImageUrl(u) => {
            if role != Role::User {
                return Err(unsupported(config, IMAGES_OUTSIDE_USER));
            }
            match image_source_exec(u.as_str()) {
                Some(source) => {
                    let e = vec![entry("source", source), entry("type", Json::string("image"))];
                    assert(e@.map_values(|e: (String, Json)| (e.0@, e.1@)) =~= seq![("source"@, image_source(u@)->0), ("type"@, json_from_string("image"@))]);
                    Ok(object_of(e))
                }
                None => Err(ProviderError::InvalidRequest {
                    provider: config.name.clone(),
                    message: crate::text::owned(BAD_DATA_URI),
                }),
            }
        }
        InputContent::ToolCall { id, name, arguments } => match arguments_exec(arguments.as_str()) {
            Some(input) => {
                let ghost iv = input@;
                let e = vec![
                    entry("id", Json::string(id.as_str())),
                    entry("input", input),
                    entry("name", Json::string(name.as_str())),
                    entry("type", Json::string("tool_use")),
                ];
                assert(e@.map_values(|e: (String, Json)| (e.0@, e.1@)) =~= seq![
                    ("id"@, json_from_string(id@)),
                    ("input"@, iv),
                    ("name"@, json_from_string(name@)),
                    ("type"@, json_from_string("tool_use"@)),
                ]);
                Ok(object_of(e))
            }
            None => {
                let mut message = crate::text::owned(BAD_ARGUMENTS);
                message.append(arguments.as_str());
                message.append("'");
                Err(ProviderError::InvalidRequest { provider: config.name.clone(), message })
            }
        },
        InputContent::ToolResult { call_id, output } => {
            let e = vec![
                entry("content", Json::string(output.as_str())),
                entry("tool_use_id", Json::string(call_id.as_str())),
                entry("type", Json::string("tool_result")),
            ];
            assert(e@.map_values(|e: (String, Json)| (e.0@, e.1@)) =~= seq![
                ("content"@, json_from_string(output@)),
                ("tool_use_id"@, json_from_string(call_id@)),
                ("type"@, json_from_string("tool_result"@)),
            ]);
            Ok(object_of(e))
        }
        InputContent::Reasoning { data } => Ok(data.duplicate()),
    }
}

/// The blocks of one user or assistant turn.
fn blocks_exec(role: Role, content: &Vec<InputContent>, config: &ProviderConfig) -> (r: Result<Vec<Json>, ProviderError>)
    ensures
        match blocks_of(role, content@) {
            Ok(b) => r matches Ok(v) && v@.map_values(|j: Json| j@) == b,
            Err(f) => r matches Err(e) && fault_error(f, e, *config),
        },
{
    let mut out: Vec<Json> = Vec::new();
    let mut j: usize = 0;
    assert(content@.take(0) =~= Seq::<InputContent>::empty());
    assert(out@.map_values(|j: Json| j@) =~= Seq::<Seq<char>>::empty());
    while j < content.len()
        invariant
            j <= content@.len(),
            blocks_of(role, content@.take(j as int)) == Ok::<Seq<Seq<char>>, AnthropicFault>(out@.map_values(|j: Json| j@)),
        decreases content@.len() - j,
    {
        assert(content@.take(j + 1).drop_last() == content@.take(j as int));
        assert(content@.take(j + 1).last() == content@[j as int]);
        match block_exec(role, &content[j], config) {
            Ok(b) => {
                let ghost before = out@.map_values(|j: Json| j@);
                out.push(b);
                assert(out@.map_values(|j: Json| j@) =~= before.push(b@));
            }
            Err(e) => {
                proof { lemma_blocks_fault_sticks(role, content@, j as int + 1); }
                return Err(e);
            }
        }
        j = j + 1;
    }
    assert(content@.take(content@.len() as int) == content@);
    Ok(out)
}

proof fn lemma_blocks_fault_sticks(role: Role, cs: Seq<InputContent>, k: int)
    requires
        0 < k <= cs.len(),
        blocks_of(role, cs.take(k)) is Err,
    ensures
        blocks_of(role, cs) == blocks_of(role, cs.take(k)),
    decreases cs.len() - k,
{
    if k < cs.len() {
        assert(cs.take(k + 1).drop_last() == cs.take(k));
        lemma_blocks_fault_sticks(role, cs, k + 1);
    } else {
        assert(cs.take(k) == cs);
    }
}

/// The texts of one system or developer turn.
fn system_exec(content: &Vec<InputContent>, config: &ProviderConfig, texts: &mut Vec<String>) -> (r: Result<(), ProviderError>)
    ensures
        match system_texts(content@) {
            Ok(t) => r is Ok && final(texts)@.map_values(|s: String| s@) == old(texts)@.map_values(|s: String| s@) + t,
            Err(f) => r matches Err(e) && fault_error(f, e, *config),
        },
{
    let ghost start = texts@.map_values(|s: String| s@);
    let mut j: usize = 0;
    assert(content@.take(0) =~= Seq::<InputContent>::empty());
    assert(texts@.map_values(|s: String| s@) =~= start + Seq::<Seq<char>>::empty());
    while j < content.len()
        invariant
            j <= content@.len(),
            system_texts(content@.take(j as int)) matches Ok(t) && texts@.map_values(|s: String| s@) == start + t,
        decreases content@.len() - j,
    {
        assert(content@.take(j + 1).drop_last() == content@.take(j as int));
        assert(content@.take(j + 1).last() == content@[j as int]);
        match &content[j] {
            InputContent::Text(t) => {
                let ghost before = texts@.map_values(|s: String| s@);
                texts.push(t.clone());
                assert(texts@.map_values(|s: String| s@) =~= before.push(t@));
            }
            _ => {
                proof { lemma_system_fault_sticks(content@, j as int + 1); }
                return Err(unsupported(config, NON_TEXT_SYSTEM));
            }
        }
        j = j + 1;
    }
    assert(content@.take(content@.len() as int) == content@);
    Ok(())
}

proof fn lemma_system_fault_sticks(cs: Seq<InputContent>, k: int)
    requires
        0 < k <= cs.len(),
        system_texts(cs.take(k)) is Err,
    ensures
        system_texts(cs) == system_texts(cs.take(k)),
    decreases cs.len() - k,
{
    if k < cs.len() {
        assert(cs.take(k + 1).drop_last() == cs.take(k));
        lemma_system_fault_sticks(cs, k + 1);
    } else {
        assert(cs.take(k) == cs);
    }
}


fn choice_exec(c: &ToolChoice) -> (r: Json)
    ensures
        r@ == choice_wire(*c),
{
    match c {
        ToolChoice::Auto => {
            let e = vec![entry("type", Json::string("auto"))];
            assert(e@.map_values(|e: (String, Json)| (e.0@, e.1@)) =~= seq![("type"@, json_from_string("auto"@))]);
            object_of(e)
        }
        ToolChoice::NoTools => {
            let e = vec![entry("type", Json::string("none"))];
            assert(e@.map_values(|e: (String, Json)| (e.0@, e.1@)) =~= seq![("type"@, json_from_string("none"@))]);
            object_of(e)
        }
        ToolChoice::Required => {
            let e = vec![entry("type", Json::string("any"))];
            assert(e@.map_values(|e: (String, Json)| (e.0@, e.1@)) =~= seq![("type"@, json_from_string("any"@))]);
            object_of(e)
        }
        ToolChoice::Named(name) => {
            let e = vec![entry("name", Json::string(name.as_str())), entry("type", Json::string("tool"))];
            assert(e@.map_values(|e: (String, Json)| (e.0@, e.1@)) =~= seq![
                ("name"@, json_from_string(name@)),
                ("type"@, json_from_string("tool"@)),
            ]);
            object_of(e)
        }
    }
}

fn tool_exec(t: &ToolDefinition) -> (r: Json)
    ensures
        r@ == tool_wire(*t),
{
    let mut e: Vec<(String, Json)> = Vec::new();
    match &t.description {
        Some(d) => e.push(entry("description", Json::string(d.as_str()))),
        None => {}
    }
    let ghost a = e@.map_values(|e: (String, Json)| (e.0@, e.1@));
    assert(a =~= (match t.description { Some(d) => seq![("description"@, json_from_string(d@))], None => Seq::empty() }));
    e.push(entry("input_schema", t.parameters.duplicate()));
    e.push(entry("name", Json::string(t.name.as_str())));
    let ghost b = e@.map_values(|e: (String, Json)| (e.0@, e.1@));
    assert(b =~= a + seq![("input_schema"@, t.parameters@), ("name"@, json_from_string(t.name@))]);
    match t.strict {
        Some(x) => e.push(entry("strict", Json::boolean(x))),
        None => {}
    }
    assert(e@.map_values(|e: (String, Json)| (e.0@, e.1@)) =~= b
        + (match t.strict { Some(x) => seq![("strict"@, bool_text(x))], None => Seq::empty() }));
    object_of(e)
}

fn copy_json(j: &Option<Json>) -> (r: Option<Json>)
    ensures
        r == *j,
{
    match j {
        Some(x) => Some(x.duplicate()),
        None => None,
    }
}

/// What `Request::build` answers for `value` on `config`.
pub open spec fn built(value: GenerateRequest, config: ProviderConfig, r: Result<Request, ProviderError>) -> bool {
    &&& value.previous_response_id is Some ==>
            r == Err::<Request, ProviderError>(unsupported_error(config, CONVERSATION_CONTINUATION))
    &&& value.previous_response_id is None ==> match transcript(value.messages@) {
            Err(f) => r matches Err(e) && fault_error(f, e, config),
            Ok((system, messages)) => if value.reasoning_effort == Some(ReasoningEffort::Minimal) {
                r == Err::<Request, ProviderError>(unsupported_error(config, EFFORT_MINIMAL))
            } else if value.response_format == Some(ResponseFormat::JsonObject) {
                r == Err::<Request, ProviderError>(unsupported_error(config, SCHEMALESS_JSON))
            } else {
                match resolved_model(config, value@) {
                    None => r matches Err(ProviderError::InvalidRequest { provider, message })
                        && provider == config.name && message@ == no_model_message(),
                    Some(model) => r matches Ok(req) && is_body(req, value, system, messages, model),
                }
            },
        }
}

impl Request {
    /// Converts a neutral request into this dialect's body.
    ///
    /// Refuses `previous_response_id` (the API is stateless), anything but
    /// text in a system turn, an image outside a user turn, a data URI that is
    /// not base64, tool arguments that are not an object, the `minimal`
    /// effort level and a schema-less JSON format; then resolves the model.
    /// System turns are joined by blank lines into `system`. `none` effort
    /// disables thinking; any other level goes to `output_config.effort`.
    pub fn build(value: &GenerateRequest, config: &ProviderConfig) -> (r: Result<Request, ProviderError>)
        ensures
            built(*value, *config, r),
    {
        if value.previous_response_id.is_some() {
            return Err(unsupported(config, CONVERSATION_CONTINUATION));
        }
        let mut system: Vec<String> = Vec::new();
        let mut messages: Vec<Json> = Vec::new();
        let mut i: usize = 0;
        assert(value.messages@.take(0) =~= Seq::<Message>::empty());
        assert(messages@.map_values(|j: Json| j@) =~= Seq::<Seq<char>>::empty());
        assert(system@.map_values(|s: String| s@) =~= Seq::<Seq<char>>::empty());
        while i < value.messages.len()
            invariant
                i <= value.messages@.len(),
                value.previous_response_id is None,
                transcript(value.messages@.take(i as int)) == Ok::<(Seq<Seq<char>>, Seq<Seq<char>>), AnthropicFault>(
                    (system@.map_values(|s: String| s@), messages@.map_values(|j: Json| j@))),
            decreases value.messages@.len() - i,
        {
            let ghost ms = value.messages@.take(i + 1);
            assert(ms.drop_last() == value.messages@.take(i as int));
            assert(ms.last() == value.messages@[i as int]);
            let message = &value.messages[i];
            if message.role == Role::System || message.role == Role::Developer {
                match system_exec(&message.content, config, &mut system) {
                    Ok(()) => {}
                    Err(e) => {
                        proof { lemma_transcript_fault_sticks(value.messages@, i as int + 1); }
                        return Err(e);
                    }
                }
            } else {
                match blocks_exec(message.role, &message.content, config) {
                    Ok(blocks) => {
                        if blocks.len() > 0 {
                            let role = if message.role == Role::Assistant { "assistant" } else { "user" };
                            let ghost bv = blocks@.map_values(|j: Json| j@);
                            let e = vec![entry("content", Json::array(blocks.as_slice())), entry("role", Json::string(role))];
                            assert(e@.map_values(|e: (String, Json)| (e.0@, e.1@)) =~= seq![
                                ("content"@, json_array_from(bv)),
                                ("role"@, json_from_string(wire_role(message.role))),
                            ]);
                            let ghost before = messages@.map_values(|j: Json| j@);
                            messages.push(object_of(e));
                            assert(messages@.map_values(|j: Json| j@) =~= before.push(message_json(message.role, bv)));
                        }
                    }
                    Err(e) => {
                        proof { lemma_transcript_fault_sticks(value.messages@, i as int + 1); }
                        return Err(e);
                    }
                }
            }
            i = i + 1;
        }
        assert(value.messages@.take(value.messages@.len() as int) == value.messages@);
        let mut output: Vec<(String, Json)> = Vec::new();
        let mut thinking: Option<Json> = None;
        match value.reasoning_effort {
            Some(ReasoningEffort::Off) => {
                let e = vec![entry("type", Json::string("disabled"))];
                assert(e@.map_values(|e: (String, Json)| (e.0@, e.1@)) =~= seq![("type"@, json_from_string("disabled"@))]);
                thinking = Some(object_of(e));
            }
            Some(ReasoningEffort::Minimal) => {
                return Err(unsupported(config, EFFORT_MINIMAL));
            }
            Some(other) => {
                output.push(entry("effort", Json::string(effort_text(other))));
            }
            None => {}
        }
        let ghost first = output@.map_values(|e: (String, Json)| (e.0@, e.1@));
        match &value.response_format {
            Some(ResponseFormat::Text) => {}
            Some(ResponseFormat::JsonObject) => {
                return Err(unsupported(config, SCHEMALESS_JSON));
            }
            Some(ResponseFormat::JsonSchema { schema, .. }) => {
                let f = vec![entry("schema", schema.duplicate()), entry("type", Json::string("json_schema"))];
                assert(f@.map_values(|e: (String, Json)| (e.0@, e.1@)) =~= seq![
                    ("schema"@, schema@),
                    ("type"@, json_from_string("json_schema"@)),
                ]);
                output.push(entry("format", object_of(f)));
            }
            None => {}
        }
        assert(output@.map_values(|e: (String, Json)| (e.0@, e.1@)) =~= output_members(value.reasoning_effort, value.response_format));
        let output_config = if output.len() > 0 { Some(object_of(output)) } else { None };
        let tool_choice = match &value.tool_choice {
            Some(c) => Some(choice_exec(c)),
            None => None,
        };
        let mut tools: Vec<Json> = Vec::new();
        let mut k: usize = 0;
        assert(tools@.map_values(|j: Json| j@) =~= value.tools@.take(0).map_values(|t: ToolDefinition| tool_wire(t)));
        while k < value.tools.len()
            invariant
                k <= value.tools@.len(),
                tools@.map_values(|j: Json| j@) == value.tools@.take(k as int).map_values(|t: ToolDefinition| tool_wire(t)),
            decreases value.tools@.len() - k,
        {
            let ghost before = tools@.map_values(|j: Json| j@);
            let w = tool_exec(&value.tools[k]);
            tools.push(w);
            assert(tools@.map_values(|j: Json| j@) =~= before.push(tool_wire(value.tools@[k as int])));
            assert(value.tools@.take(k + 1) == value.tools@.take(k as int).push(value.tools@[k as int]));
            assert(value.tools@.take(k + 1).map_values(|t: ToolDefinition| tool_wire(t))
                =~= value.tools@.take(k as int).map_values(|t: ToolDefinition| tool_wire(t)).push(tool_wire(value.tools@[k as int])));
            k = k + 1;
        }
        assert(value.tools@.take(value.tools@.len() as int) == value.tools@);
        let model = match config.model_for(value) {
            Ok(m) => m,
            Err(e) => {
                return Err(e);
            }
        };
        let system_text = if system.len() > 0 { Some(crate::text::join(&system, "\n\n")) } else { None };
        Ok(Request {
            model,
            max_tokens: match value.max_tokens {
                Some(n) => n,
                None => DEFAULT_MAX_TOKENS,
            },
            messages,
            system: system_text,
            temperature: value.temperature,
            top_p: value.top_p,
            thinking,
            output_config,
            tools,
            tool_choice,
            metadata: copy_json(&value.metadata),
            stream: None,
        })
    }

    /// Marks this body as a streaming request.
    pub fn streaming(self) -> (r: Request)
        ensures
            r == (Request { stream: Some(true), ..self }),
    {
        Request { stream: Some(true), ..self }
    }
}

/// The refusal of `capability` by this endpoint.
pub open spec fn unsupported_error(config: ProviderConfig, capability: &'static str) -> ProviderError {
    ProviderError::UnsupportedCapability { provider: config.name, capability }
}

proof fn lemma_transcript_fault_sticks(ms: Seq<Message>, k: int)
    requires
        0 < k <= ms.len(),
        transcript(ms.take(k)) is Err,
    ensures
        transcript(ms) == transcript(ms.take(k)),
    decreases ms.len() - k,
{
    if k < ms.len() {
        assert(ms.take(k + 1).drop_last() == ms.take(k));
        lemma_transcript_fault_sticks(ms, k + 1);
    } else {
        assert(ms.take(k) == ms);
    }
}


/// A Messages response, as the wire carries it. Content blocks stay as JSON
/// so the ones the library does not model can be replayed verbatim.
#[derive(Debug, Clone, PartialEq, Eq)]
pub struct Response {
    pub id: String,
    pub model: String,
    pub stop_reason: Option<String>,
    pub content: Vec<Json>,
    pub usage: Option<ResponseUsage>,
    /// Every top-level field not named above, verbatim.
    pub extra: Vec<(String, Json)>,
}

/// Token accounting, in this dialect's names. `input_tokens` counts only the
/// uncached prompt; cached tokens are reported in fields of their own.
#[derive(Debug, Clone, Copy, PartialEq, Eq)]
pub struct ResponseUsage {
    pub input_tokens: Option<u64>,
    pub output_tokens: Option<u64>,
    pub cache_creation_input_tokens: Option<u64>,
    pub cache_read_input_tokens: Option<u64>,
}

pub open spec fn or_zero(n: Option<u64>) -> u64 {
    match n {
        Some(x) => x,
        None => 0,
    }
}

/// The neutral usage: the prompt size sums the plain and both cache counts,
/// and the total adds the output. Sums past `u64::MAX` wrap.
pub open spec fn usage_of(u: ResponseUsage) -> Usage {
    let input = or_zero(u.input_tokens).wrapping_add(or_zero(u.cache_creation_input_tokens)).wrapping_add(or_zero(u.cache_read_input_tokens));
    let output = or_zero(u.output_tokens);
    Usage { input_tokens: input, output_tokens: output, total_tokens: input.wrapping_add(output) }
}

/// The status a `stop_reason` maps to. `refusal` and `pause_turn` are kept
/// as they came: neither is a failure.
pub open spec fn stop_status(reason: Option<Seq<char>>) -> StatusView {
    match reason {
        None => StatusView::Completed,
        Some(s) => if s == "end_turn"@ || s == "stop_sequence"@ {
            StatusView::Completed
        } else if s == "max_tokens"@ {
            StatusView::Incomplete
        } else if s == "tool_use"@ {
            StatusView::RequiresAction
        } else {
            StatusView::Other(s)
        },
    }
}

/// The parts one content block becomes. A block the library does not model
/// is kept whole as reasoning state rather than dropped.
pub open spec fn block_parts(b: Json) -> Seq<PartView> {
    let v = Some(b@);
    let kind = string_at(member(v, "type"@));
    if kind == Some("text"@) {
        match string_at(member(v, "text"@)) {
            Some(t) => seq![PartView::Text(t)],
            None => Seq::empty(),
        }
    } else if kind == Some("tool_use"@) {
        seq![PartView::ToolCall(
            match string_at(member(v, "id"@)) { Some(x) => x, None => Seq::empty() },
            match string_at(member(v, "name"@)) { Some(x) => x, None => Seq::empty() },
            match member(v, "input"@) { Some(x) => x, None => "{}"@ },
        )]
    } else {
        seq![PartView::Reasoning(b@)]
    }
}

pub open spec fn blocks_parts(bs: Seq<Json>) -> Seq<PartView>
    decreases bs.len(),
{
    if bs.len() == 0 {
        Seq::empty()
    } else {
        blocks_parts(bs.drop_last()) + block_parts(bs.last())
    }
}

pub open spec fn opt_chars(s: Option<String>) -> Option<Seq<char>> {
    match s {
        Some(t) => Some(t@),
        None => None,
    }
}

pub open spec fn entries_view(e: Seq<(String, Json)>) -> Seq<(Seq<char>, Seq<char>)> {
    e.map_values(|x: (String, Json)| (x.0@, x.1@))
}

/// Maps `stop_reason` onto the neutral status.
pub fn parse_status(stop_reason: Option<String>) -> (r: ResponseStatus)
    ensures
        status_view(r) == stop_status(opt_chars(stop_reason)),
{
    match stop_reason {
        None => ResponseStatus::Completed,
        Some(s) => {
            if crate::text::str_eq(s.as_str(), "end_turn") || crate::text::str_eq(s.as_str(), "stop_sequence") {
                ResponseStatus::Completed
            } else if crate::text::str_eq(s.as_str(), "max_tokens") {
                ResponseStatus::Incomplete
            } else if crate::text::str_eq(s.as_str(), "tool_use") {
                ResponseStatus::RequiresAction
            } else {
                ResponseStatus::Other(s)
            }
        }
    }
}

/// The parts one content block becomes.
pub fn convert_block(block: Json) -> (r: Vec<OutputContent>)
    ensures
        r@.map_values(|o: OutputContent| part_view(o)) == block_parts(block),
{
    let v = Some(block.duplicate());
    assert(json_opt_view(v) == Some(block@));
    let kind = Json::string_of(&Json::member_of(&v, "type"));
    let mut out: Vec<OutputContent> = Vec::new();
    let is_text = match &kind { Some(k) => crate::text::str_eq(k.as_str(), "text"), None => false };
    let is_tool = match &kind { Some(k) => crate::text::str_eq(k.as_str(), "tool_use"), None => false };
    assert(is_text == (string_at(member(Some(block@), "type"@)) == Some("text"@)));
    assert(is_tool == (string_at(member(Some(block@), "type"@)) == Some("tool_use"@)));
    if is_text {
        match Json::string_of(&Json::member_of(&v, "text")) {
            Some(t) => out.push(OutputContent::Text(t)),
            None => {}
        }
    } else if is_tool {
        let id = match Json::string_of(&Json::member_of(&v, "id")) { Some(x) => x, None => String::new() };
        let name = match Json::string_of(&Json::member_of(&v, "name")) { Some(x) => x, None => String::new() };
        let arguments = match Json::member_of(&v, "input") {
            Some(input) => crate::text::owned(input.text()),
            None => crate::text::owned("{}"),
        };
        out.push(OutputContent::ToolCall { id, name, arguments });
    } else {
        out.push(OutputContent::Reasoning { data: block });
    }
    assert(out@.map_values(|o: OutputContent| part_view(o)) =~= block_parts(block));
    out
}

fn usage_exec(u: ResponseUsage) -> (r: Usage)
    ensures
        r == usage_of(u),
{
    let zero: u64 = 0;
    let a = match u.input_tokens { Some(x) => x, None => zero };
    let b = match u.cache_creation_input_tokens { Some(x) => x, None => zero };
    let c = match u.cache_read_input_tokens { Some(x) => x, None => zero };
    let output = match u.output_tokens { Some(x) => x, None => zero };
    let input = a.wrapping_add(b).wrapping_add(c);
    Usage { input_tokens: input, output_tokens: output, total_tokens: input.wrapping_add(output) }
}

impl From<Response> for GenerateResponse {
    /// Normalizes a response: every block becomes parts, in order.
    fn from(value: Response) -> (r: GenerateResponse)
        ensures
            r.id == value.id,
            r.model == value.model,
            status_view(r.status) == stop_status(opt_chars(value.stop_reason)),
            r.content@.map_values(|o: OutputContent| part_view(o)) == blocks_parts(value.content@),
            r.usage == match value.usage { Some(u) => Some(usage_of(u)), None => None },
            r.provider_metadata matches Some(m) && m@ == json_object_from(entries_view(value.extra@)),
    {
        let mut content: Vec<OutputContent> = Vec::new();
        let blocks = value.content;
        let ghost bs = blocks@;
        let mut i: usize = 0;
        assert(bs.take(0) =~= Seq::<Json>::empty());
        assert(content@.map_values(|o: OutputContent| part_view(o)) =~= Seq::<PartView>::empty());
        while i < blocks.len()
            invariant
                i <= blocks@.len(),
                bs == blocks@,
                content@.map_values(|o: OutputContent| part_view(o)) == blocks_parts(bs.take(i as int)),
            decreases blocks@.len() - i,
        {
            assert(bs.take(i + 1).drop_last() == bs.take(i as int));
            assert(bs.take(i + 1).last() == bs[i as int]);
            let ghost before = content@.map_values(|o: OutputContent| part_view(o));
            let mut parts = convert_block(blocks[i].duplicate());
            let ghost added = parts@.map_values(|o: OutputContent| part_view(o));
            content.append(&mut parts);
            assert(content@.map_values(|o: OutputContent| part_view(o)) =~= before + added);
            i = i + 1;
        }
        assert(bs.take(bs.len() as int) == bs);
        let usage = match value.usage {
            Some(u) => Some(usage_exec(u)),
            None => None,
        };
        GenerateResponse {
            id: value.id,
            model: value.model,
            status: parse_status(value.stop_reason),
            content,
            usage,
            provider_metadata: Some(Json::object(value.extra.as_slice())),
        }
    }
}

/// The conversion is specified by the contract of `from` itself; no spec
/// function stands for it.
impl vstd::std_specs::convert::FromSpecImpl<Response> for GenerateResponse {
    open spec fn obeys_from_spec() -> bool {
        false
    }

    open spec fn from_spec(v: Response) -> GenerateResponse {
        arbitrary()
    }
}


/// Where `k` sits among the slots `s`.
pub open spec fn slot_at(s: Seq<usize>, k: usize) -> Option<int>
    decreases s.len(),
{
    if s.len() == 0 {
        None
    } else {
        match slot_at(s.drop_last(), k) {
            Some(i) => Some(i),
            None => if s.last() == k { Some(s.len() - 1) } else { None },
        }
    }
}

/// The slots with `k` added.
pub open spec fn add_slot(s: Seq<usize>, k: usize) -> Seq<usize> {
    if slot_at(s, k) is Some { s } else { s.push(k) }
}

/// What the decoder remembers between frames: which blocks are tool calls,
/// thinking (with what has streamed of it) and unmodeled blocks (with any
/// argument text that streamed after them); and the prompt size.
pub struct AnthState {
    pub tools: Seq<usize>,
    pub thinking: Seq<(usize, (Seq<char>, Seq<char>))>,
    pub opaque: Seq<(usize, (Seq<char>, Seq<char>))>,
    pub input_tokens: u64,
}

pub open spec fn fresh_state() -> AnthState {
    AnthState { tools: Seq::empty(), thinking: Seq::empty(), opaque: Seq::empty(), input_tokens: 0 }
}

pub open spec fn chars_or_empty(j: Option<Seq<char>>) -> Seq<char> {
    match j {
        Some(x) => x,
        None => Seq::empty(),
    }
}

pub open spec fn unsigned_or_zero(j: Option<Seq<char>>) -> u64 {
    match unsigned_at(j) {
        Some(n) => n,
        None => 0,
    }
}

/// A member's text, or `null` when it is absent.
pub open spec fn or_null(j: Option<Seq<char>>) -> Seq<char> {
    match j {
        Some(x) => x,
        None => "null"@,
    }
}

pub open spec fn thinking_blob(thinking: Seq<char>, signature: Seq<char>) -> Seq<char> {
    json_object_from(seq![
        ("signature"@, json_from_string(signature)),
        ("thinking"@, json_from_string(thinking)),
        ("type"@, json_from_string("thinking"@)),
    ])
}

/// An unmodeled block with the argument text that streamed after it put in
/// its `input`, when that text parses and the block is an object.
pub open spec fn completed_block(block: Seq<char>, buffer: Seq<char>) -> Seq<char> {
    if buffer.len() > 0 {
        match json_canonical(buffer) {
            Some(input) => if json_fields(block) is Some {
                match json_with_member(block, "input"@, input) {
                    Some(b) => b,
                    None => block,
                }
            } else {
                block
            },
            None => block,
        }
    } else {
        block
    }
}

pub open spec fn start_step(st: AnthState, v: Option<Seq<char>>) -> (AnthState, Seq<DeltaView>) {
    let message = member(v, "message"@);
    let usage = member(message, "usage"@);
    let input = unsigned_or_zero(member(usage, "input_tokens"@))
        .wrapping_add(unsigned_or_zero(member(usage, "cache_creation_input_tokens"@)))
        .wrapping_add(unsigned_or_zero(member(usage, "cache_read_input_tokens"@)));
    (
        AnthState { input_tokens: input, ..st },
        seq![DeltaView::Meta(string_at(member(message, "id"@)), string_at(member(message, "model"@)), None, None, Some(or_null(message)))],
    )
}

pub open spec fn block_start_step(st: AnthState, v: Option<Seq<char>>, index: usize) -> (AnthState, Seq<DeltaView>) {
    let block = member(v, "content_block"@);
    let kind = string_at(member(block, "type"@));
    if kind == Some("tool_use"@) {
        (
            AnthState { tools: add_slot(st.tools, index), ..st },
            seq![DeltaView::ToolStart(index, chars_or_empty(string_at(member(block, "id"@))), chars_or_empty(string_at(member(block, "name"@))))],
        )
    } else if kind == Some("thinking"@) {
        (AnthState { thinking: put_key(st.thinking, index, (Seq::empty(), Seq::empty())), ..st }, Seq::empty())
    } else if kind == Some("text"@) {
        (st, Seq::empty())
    } else {
        (AnthState { opaque: put_key(st.opaque, index, (or_null(block), Seq::empty())), ..st }, Seq::empty())
    }
}

pub open spec fn block_delta_step(st: AnthState, v: Option<Seq<char>>, index: usize) -> (AnthState, Seq<DeltaView>) {
    let delta = member(v, "delta"@);
    let kind = string_at(member(delta, "type"@));
    if kind == Some("text_delta"@) {
        match string_at(member(delta, "text"@)) {
            Some(t) => (st, seq![DeltaView::Text(t)]),
            None => (st, Seq::empty()),
        }
    } else if kind == Some("input_json_delta"@) {
        match string_at(member(delta, "partial_json"@)) {
            Some(f) => match key_at(st.opaque, index) {
                Some(i) => (
                    AnthState { opaque: st.opaque.update(i, (index, (st.opaque[i].1.0, st.opaque[i].1.1 + f))), ..st },
                    Seq::empty(),
                ),
                None => (st, seq![DeltaView::ToolArgs(index, f)]),
            },
            None => (st, Seq::empty()),
        }
    } else if kind == Some("thinking_delta"@) {
        match string_at(member(delta, "thinking"@)) {
            Some(t) => (
                match key_at(st.thinking, index) {
                    Some(i) => AnthState { thinking: st.thinking.update(i, (index, (st.thinking[i].1.0 + t, st.thinking[i].1.1))), ..st },
                    None => st,
                },
                seq![DeltaView::ReasoningText(t)],
            ),
            None => (st, Seq::empty()),
        }
    } else if kind == Some("signature_delta"@) {
        match (string_at(member(delta, "signature"@)), key_at(st.thinking, index)) {
            (Some(sig), Some(i)) => (
                AnthState { thinking: st.thinking.update(i, (index, (st.thinking[i].1.0, st.thinking[i].1.1 + sig))), ..st },
                Seq::empty(),
            ),
            _ => (st, Seq::empty()),
        }
    } else {
        (st, Seq::empty())
    }
}

pub open spec fn block_stop_step(st: AnthState, index: usize) -> (AnthState, Seq<DeltaView>) {
    match slot_at(st.tools, index) {
        Some(i) => (AnthState { tools: st.tools.remove(i), ..st }, seq![DeltaView::ToolEnd(index)]),
        None => match key_at(st.thinking, index) {
            Some(i) => (
                AnthState { thinking: st.thinking.remove(i), ..st },
                seq![DeltaView::ReasoningBlob(thinking_blob(st.thinking[i].1.0, st.thinking[i].1.1))],
            ),
            None => match key_at(st.opaque, index) {
                Some(i) => (
                    AnthState { opaque: st.opaque.remove(i), ..st },
                    seq![DeltaView::ReasoningBlob(completed_block(st.opaque[i].1.0, st.opaque[i].1.1))],
                ),
                None => (st, Seq::empty()),
            },
        },
    }
}

/// The status a streamed `stop_reason` names.
pub open spec fn stream_status(reason: Option<Seq<char>>) -> Option<StatusView> {
    match reason {
        Some(s) => Some(stop_status(Some(s))),
        None => None,
    }
}

pub open spec fn message_delta_step(st: AnthState, v: Option<Seq<char>>) -> Seq<DeltaView> {
    let status = stream_status(string_at(member(member(v, "delta"@), "stop_reason"@)));
    let usage = match member(v, "usage"@) {
        Some(u) => {
            let output = unsigned_or_zero(member(Some(u), "output_tokens"@));
            Some(Usage { input_tokens: st.input_tokens, output_tokens: output, total_tokens: st.input_tokens.wrapping_add(output) })
        },
        None => None,
    };
    seq![DeltaView::Meta(None, None, status, usage, None)]
}

/// The message a streamed error frame carries.
pub open spec fn error_message(v: Option<Seq<char>>) -> Seq<char> {
    match string_at(member(member(v, "error"@), "message"@)) {
        Some(m) => m,
        None => "unknown streaming error"@,
    }
}

/// What one frame does: the decoder's next state and the deltas it means,
/// or the message of a streamed error. The event name is authoritative; a
/// frame that is not JSON, or names no event this dialect sends, does nothing.
pub open spec fn anthropic_step(st: AnthState, event: Seq<char>, data: Seq<char>) -> Result<(AnthState, Seq<DeltaView>), Seq<char>> {
    match json_canonical(data) {
        None => Ok((st, Seq::empty())),
        Some(t) => {
            let v = Some(t);
            let index: usize = match unsigned_at(member(v, "index"@)) { Some(n) => n as usize, None => 0 };
            if event == "error"@ {
                Err(error_message(v))
            } else if event == "message_start"@ {
                Ok(start_step(st, v))
            } else if event == "content_block_start"@ {
                Ok(block_start_step(st, v, index))
            } else if event == "content_block_delta"@ {
                Ok(block_delta_step(st, v, index))
            } else if event == "content_block_stop"@ {
                Ok(block_stop_step(st, index))
            } else if event == "message_delta"@ {
                Ok((st, message_delta_step(st, v)))
            } else {
                Ok((st, Seq::empty()))
            }
        },
    }
}


proof fn lemma_slot_prefix(s: Seq<usize>, k: usize, n: int)
    requires
        0 <= n <= s.len(),
        slot_at(s.take(n), k) is Some,
    ensures
        slot_at(s, k) == slot_at(s.take(n), k),
    decreases s.len() - n,
{
    if n < s.len() {
        assert(s.take(n + 1).drop_last() == s.take(n));
        lemma_slot_prefix(s, k, n + 1);
    } else {
        assert(s.take(n) == s);
    }
}

proof fn lemma_slot_bounds(s: Seq<usize>, k: usize)
    ensures
        slot_at(s, k) matches Some(i) ==> 0 <= i < s.len() && s[i] == k,
    decreases s.len(),
{
    if s.len() > 0 {
        lemma_slot_bounds(s.drop_last(), k);
    }
}

fn find_slot(v: &Vec<usize>, k: usize) -> (r: Option<usize>)
    ensures
        match r {
            Some(i) => slot_at(v@, k) == Some(i as int) && i < v@.len(),
            None => slot_at(v@, k) is None,
        },
{
    let mut j: usize = 0;
    assert(v@.take(0) =~= Seq::<usize>::empty());
    while j < v.len()
        invariant
            j <= v@.len(),
            slot_at(v@.take(j as int), k) is None,
        decreases v@.len() - j,
    {
        assert(v@.take(j + 1).drop_last() == v@.take(j as int));
        if v[j] == k {
            proof { lemma_slot_prefix(v@, k, j + 1); }
            return Some(j);
        }
        j = j + 1;
    }
    assert(v@.take(v@.len() as int) == v@);
    None
}

/// A status named by a `stop_reason`.
fn stop_status_exec(reason: Option<String>) -> (r: Option<ResponseStatus>)
    ensures
        match r { Some(x) => Some(status_view(x)), None => None } == stream_status(opt_chars(reason)),
{
    match reason {
        Some(s) => Some(parse_status(Some(s))),
        None => None,
    }
}

/// Decodes Messages frames.
///
/// Stateful: a block's type arrives in its start frame and its end frame
/// names only an index, so the decoder remembers which indices are tool
/// calls, thinking (and what has streamed of it) and unmodeled blocks. Text
/// is carried by its deltas alone, so a text block needs no memory.
pub struct Decoder {
    tools: Vec<usize>,
    thinking: Vec<(usize, (String, String))>,
    opaque: Vec<(usize, (Json, String))>,
    input_tokens: u64,
}

impl Decoder {
    /// What the decoder remembers.
    pub closed spec fn state(self) -> AnthState {
        AnthState {
            tools: self.tools@,
            thinking: self.thinking@.map_values(|e: (usize, (String, String))| (e.0, (e.1.0@, e.1.1@))),
            opaque: self.opaque@.map_values(|e: (usize, (Json, String))| (e.0, (e.1.0@, e.1.1@))),
            input_tokens: self.input_tokens,
        }
    }

    /// A decoder that has seen nothing.
    pub fn new() -> (r: Decoder)
        ensures
            r.state() == fresh_state(),
    {
        let r = Decoder { tools: Vec::new(), thinking: Vec::new(), opaque: Vec::new(), input_tokens: 0 };
        assert(r.state().thinking =~= Seq::<(usize, (Seq<char>, Seq<char>))>::empty());
        assert(r.state().opaque =~= Seq::<(usize, (Seq<char>, Seq<char>))>::empty());
        r
    }

    /// This dialect's parser re-serializes tool input, which sorts its keys,
    /// so streamed arguments are put in the same canonical form.
    pub fn normalizes_tool_arguments(&self) -> (r: bool)
        ensures
            r,
    {
        true
    }

    fn find_thinking(&self, k: usize) -> (r: Option<usize>)
        ensures
            match r {
                Some(i) => key_at(self.state().thinking, k) == Some(i as int) && i < self.thinking@.len(),
                None => key_at(self.state().thinking, k) is None,
            },
    {
        let ghost s = self.state().thinking;
        let mut j: usize = 0;
        assert(s.take(0) =~= Seq::<(usize, (Seq<char>, Seq<char>))>::empty());
        while j < self.thinking.len()
            invariant
                j <= self.thinking@.len(),
                s == self.state().thinking,
                s.len() == self.thinking@.len(),
                key_at(s.take(j as int), k) is None,
            decreases self.thinking@.len() - j,
        {
            assert(s.take(j + 1).drop_last() == s.take(j as int));
            assert(s[j as int].0 == self.thinking@[j as int].0);
            if self.thinking[j].0 == k {
                proof { lemma_key_prefix(s, k, j + 1); }
                return Some(j);
            }
            j = j + 1;
        }
        assert(s.take(s.len() as int) == s);
        None
    }

    fn find_opaque(&self, k: usize) -> (r: Option<usize>)
        ensures
            match r {
                Some(i) => key_at(self.state().opaque, k) == Some(i as int) && i < self.opaque@.len(),
                None => key_at(self.state().opaque, k) is None,
            },
    {
        let ghost s = self.state().opaque;
        let mut j: usize = 0;
        assert(s.take(0) =~= Seq::<(usize, (Seq<char>, Seq<char>))>::empty());
        while j < self.opaque.len()
            invariant
                j <= self.opaque@.len(),
                s == self.state().opaque,
                s.len() == self.opaque@.len(),
                key_at(s.take(j as int), k) is None,
            decreases self.opaque@.len() - j,
        {
            assert(s.take(j + 1).drop_last() == s.take(j as int));
            assert(s[j as int].0 == self.opaque@[j as int].0);
            if self.opaque[j].0 == k {
                proof { lemma_key_prefix(s, k, j + 1); }
                return Some(j);
            }
            j = j + 1;
        }
        assert(s.take(s.len() as int) == s);
        None
    }
}


fn unsigned_or_zero_exec(j: &Option<Json>) -> (r: u64)
    ensures
        r == unsigned_or_zero(json_opt_view(*j)),
{
    match Json::unsigned_of(j) {
        Some(n) => n,
        None => 0,
    }
}

fn string_or_empty(j: &Option<Json>) -> (r: String)
    ensures
        r@ == chars_or_empty(string_at(json_opt_view(*j))),
{
    match Json::string_of(j) {
        Some(x) => x,
        None => String::new(),
    }
}

fn json_or_null(j: Option<Json>) -> (r: Json)
    ensures
        r@ == or_null(json_opt_view(j)),
{
    match j {
        Some(x) => x,
        None => Json::null(),
    }
}

fn is_kind(kind: &Option<String>, name: &str) -> (r: bool)
    ensures
        r == (match kind { Some(k) => k@ == name@, None => false }),
{
    match kind {
        Some(k) => crate::text::str_eq(k.as_str(), name),
        None => false,
    }
}

impl Decoder {
    fn start_message(&mut self, v: &Option<Json>, out: &mut Vec<RawDelta>)
        ensures
            (final(self).state(), deltas_view(final(out)@).skip(old(out)@.len() as int))
                == start_step(old(self).state(), json_opt_view(*v)),
            deltas_view(final(out)@).take(old(out)@.len() as int) == deltas_view(old(out)@),
            old(out)@.len() <= final(out)@.len(),
    {
        let message = Json::member_of(v, "message");
        let usage = Json::member_of(&message, "usage");
        let input = unsigned_or_zero_exec(&Json::member_of(&usage, "input_tokens"))
            .wrapping_add(unsigned_or_zero_exec(&Json::member_of(&usage, "cache_creation_input_tokens")))
            .wrapping_add(unsigned_or_zero_exec(&Json::member_of(&usage, "cache_read_input_tokens")));
        self.input_tokens = input;
        let id = Json::string_of(&Json::member_of(&message, "id"));
        let model = Json::string_of(&Json::member_of(&message, "model"));
        let metadata = json_or_null(message);
        push_delta(out, RawDelta::Meta { id, model, status: None, usage: None, provider_metadata: Some(metadata) });
        assert(deltas_view(out@).skip(old(out)@.len() as int) =~= start_step(old(self).state(), json_opt_view(*v)).1);
        assert(deltas_view(out@).take(old(out)@.len() as int) =~= deltas_view(old(out)@));
        assert(self.state().thinking =~= old(self).state().thinking);
        assert(self.state().opaque =~= old(self).state().opaque);
    }

    fn start_block(&mut self, v: &Option<Json>, index: usize, out: &mut Vec<RawDelta>)
        ensures
            (final(self).state(), deltas_view(final(out)@).skip(old(out)@.len() as int))
                == block_start_step(old(self).state(), json_opt_view(*v), index),
            deltas_view(final(out)@).take(old(out)@.len() as int) == deltas_view(old(out)@),
            old(out)@.len() <= final(out)@.len(),
    {
        let ghost st = self.state();
        let block = Json::member_of(v, "content_block");
        let kind = Json::string_of(&Json::member_of(&block, "type"));
        if is_kind(&kind, "tool_use") {
            if find_slot(&self.tools, index).is_none() {
                self.tools.push(index);
            }
            let id = string_or_empty(&Json::member_of(&block, "id"));
            let name = string_or_empty(&Json::member_of(&block, "name"));
            push_delta(out, RawDelta::ToolStart { slot: index, id, name });
        } else if is_kind(&kind, "thinking") {
            let ghost before = self.state().thinking;
            match self.find_thinking(index) {
                Some(i) => {
                    self.thinking.remove(i);
                    self.thinking.insert(i, (index, (String::new(), String::new())));
                    assert(self.state().thinking =~= before.update(i as int, (index, (Seq::<char>::empty(), Seq::<char>::empty()))));
                }
                None => {
                    self.thinking.push((index, (String::new(), String::new())));
                    assert(self.state().thinking =~= before.push((index, (Seq::<char>::empty(), Seq::<char>::empty()))));
                }
            }
        } else if is_kind(&kind, "text") {
            // Text arrives through its deltas and is never kept whole.
        } else {
            let ghost before = self.state().opaque;
            let ghost b = or_null(json_opt_view(block));
            let kept = json_or_null(block);
            match self.find_opaque(index) {
                Some(i) => {
                    self.opaque.remove(i);
                    self.opaque.insert(i, (index, (kept, String::new())));
                    assert(self.state().opaque =~= before.update(i as int, (index, (b, Seq::<char>::empty()))));
                }
                None => {
                    self.opaque.push((index, (kept, String::new())));
                    assert(self.state().opaque =~= before.push((index, (b, Seq::<char>::empty()))));
                }
            }
        }
        assert(self.state().thinking =~= block_start_step(st, json_opt_view(*v), index).0.thinking);
        assert(self.state().opaque =~= block_start_step(st, json_opt_view(*v), index).0.opaque);
        assert(deltas_view(out@).skip(old(out)@.len() as int) =~= block_start_step(st, json_opt_view(*v), index).1);
        assert(deltas_view(out@).take(old(out)@.len() as int) =~= deltas_view(old(out)@));
    }
}


impl Decoder {
    fn block_delta(&mut self, v: &Option<Json>, index: usize, out: &mut Vec<RawDelta>)
        ensures
            (final(self).state(), deltas_view(final(out)@).skip(old(out)@.len() as int))
                == block_delta_step(old(self).state(), json_opt_view(*v), index),
            deltas_view(final(out)@).take(old(out)@.len() as int) == deltas_view(old(out)@),
            old(out)@.len() <= final(out)@.len(),
    {
        let ghost st = self.state();
        let delta = Json::member_of(v, "delta");
        let kind = Json::string_of(&Json::member_of(&delta, "type"));
        if is_kind(&kind, "text_delta") {
            match Json::string_of(&Json::member_of(&delta, "text")) {
                Some(t) => push_delta(out, RawDelta::Text(t)),
                None => {}
            }
        } else if is_kind(&kind, "input_json_delta") {
            match Json::string_of(&Json::member_of(&delta, "partial_json")) {
                Some(f) => match self.find_opaque(index) {
                    Some(i) => {
                        let ghost before = self.state().opaque;
                        proof { lemma_key_bounds(before, index); }
                        let (k, (block, buffer)) = self.opaque.remove(i);
                        let mut grown = buffer;
                        grown.append(f.as_str());
                        self.opaque.insert(i, (k, (block, grown)));
                        assert(self.state().opaque =~= before.update(i as int, (index, (before[i as int].1.0, before[i as int].1.1 + f@))));
                    }
                    None => push_delta(out, RawDelta::ToolArgs { slot: index, fragment: f }),
                },
                None => {}
            }
        } else if is_kind(&kind, "thinking_delta") {
            match Json::string_of(&Json::member_of(&delta, "thinking")) {
                Some(t) => {
                    match self.find_thinking(index) {
                        Some(i) => {
                            let ghost before = self.state().thinking;
                            proof { lemma_key_bounds(before, index); }
                            let (k, (text, signature)) = self.thinking.remove(i);
                            let mut grown = text;
                            grown.append(t.as_str());
                            self.thinking.insert(i, (k, (grown, signature)));
                            assert(self.state().thinking =~= before.update(i as int, (index, (before[i as int].1.0 + t@, before[i as int].1.1))));
                        }
                        None => {}
                    }
                    push_delta(out, RawDelta::ReasoningText(t));
                }
                None => {}
            }
        } else if is_kind(&kind, "signature_delta") {
            match Json::string_of(&Json::member_of(&delta, "signature")) {
                Some(sig) => match self.find_thinking(index) {
                    Some(i) => {
                        let ghost before = self.state().thinking;
                        proof { lemma_key_bounds(before, index); }
                        let (k, (text, signature)) = self.thinking.remove(i);
                        let mut grown = signature;
                        grown.append(sig.as_str());
                        self.thinking.insert(i, (k, (text, grown)));
                        assert(self.state().thinking =~= before.update(i as int, (index, (before[i as int].1.0, before[i as int].1.1 + sig@))));
                    }
                    None => {}
                },
                None => {}
            }
        }
        assert(self.state().thinking =~= block_delta_step(st, json_opt_view(*v), index).0.thinking);
        assert(self.state().opaque =~= block_delta_step(st, json_opt_view(*v), index).0.opaque);
        assert(deltas_view(out@).skip(old(out)@.len() as int) =~= block_delta_step(st, json_opt_view(*v), index).1);
        assert(deltas_view(out@).take(old(out)@.len() as int) =~= deltas_view(old(out)@));
    }
}


fn thinking_blob_exec(thinking: &str, signature: &str) -> (r: Json)
    ensures
        r@ == thinking_blob(thinking@, signature@),
{
    let e = vec![
        entry("signature", Json::string(signature)),
        entry("thinking", Json::string(thinking)),
        entry("type", Json::string("thinking")),
    ];
    assert(e@.map_values(|e: (String, Json)| (e.0@, e.1@)) =~= seq![
        ("signature"@, json_from_string(signature@)),
        ("thinking"@, json_from_string(thinking@)),
        ("type"@, json_from_string("thinking"@)),
    ]);
    object_of(e)
}

fn completed_block_exec(block: Json, buffer: &str) -> (r: Json)
    ensures
        r@ == completed_block(block@, buffer@),
{
    if buffer.is_empty() {
        return block;
    }
    match Json::parse(buffer) {
        Some(input) => {
            if block.as_object().is_some() {
                match block.with_member("input", &input) {
                    Some(b) => b,
                    None => block,
                }
            } else {
                block
            }
        }
        None => block,
    }
}

impl Decoder {
    fn stop_block(&mut self, index: usize, out: &mut Vec<RawDelta>)
        ensures
            (final(self).state(), deltas_view(final(out)@).skip(old(out)@.len() as int))
                == block_stop_step(old(self).state(), index),
            deltas_view(final(out)@).take(old(out)@.len() as int) == deltas_view(old(out)@),
            old(out)@.len() <= final(out)@.len(),
    {
        let ghost st = self.state();
        match find_slot(&self.tools, index) {
            Some(i) => {
                self.tools.remove(i);
                push_delta(out, RawDelta::ToolEnd { slot: index });
            }
            None => match self.find_thinking(index) {
                Some(i) => {
                    let ghost before = self.state().thinking;
                    let (_, (text, signature)) = self.thinking.remove(i);
                    assert(self.state().thinking =~= before.remove(i as int));
                    push_delta(out, RawDelta::ReasoningBlob(thinking_blob_exec(text.as_str(), signature.as_str())));
                }
                None => match self.find_opaque(index) {
                    Some(i) => {
                        let ghost before = self.state().opaque;
                        let (_, (block, buffer)) = self.opaque.remove(i);
                        assert(self.state().opaque =~= before.remove(i as int));
                        push_delta(out, RawDelta::ReasoningBlob(completed_block_exec(block, buffer.as_str())));
                    }
                    None => {}
                },
            },
        }
        assert(self.state().thinking =~= block_stop_step(st, index).0.thinking);
        assert(self.state().opaque =~= block_stop_step(st, index).0.opaque);
        assert(deltas_view(out@).skip(old(out)@.len() as int) =~= block_stop_step(st, index).1);
        assert(deltas_view(out@).take(old(out)@.len() as int) =~= deltas_view(old(out)@));
    }

    fn message_delta(&self, v: &Option<Json>, out: &mut Vec<RawDelta>)
        ensures
            deltas_view(final(out)@) == deltas_view(old(out)@) + message_delta_step(self.state(), json_opt_view(*v)),
    {
        let status = stop_status_exec(Json::string_of(&Json::member_of(&Json::member_of(v, "delta"), "stop_reason")));
        let usage = Json::member_of(v, "usage");
        let counted = match &usage {
            Some(_) => {
                let output = unsigned_or_zero_exec(&Json::member_of(&usage, "output_tokens"));
                Some(Usage { input_tokens: self.input_tokens, output_tokens: output, total_tokens: self.input_tokens.wrapping_add(output) })
            }
            None => None,
        };
        push_delta(out, RawDelta::Meta { id: None, model: None, status, usage: counted, provider_metadata: None });
    }

    /// Turns one frame into the deltas it carries, remembering what later
    /// frames need. A streamed `error` frame fails the stream with its
    /// message, naming `endpoint`: a compatible gateway reports itself.
    pub fn decode(&mut self, frame: &SseFrame, endpoint: &str, out: &mut Vec<RawDelta>) -> (r: Result<(), ProviderError>)
        ensures
            match anthropic_step(old(self).state(), event_name(frame.event), frame.data@) {
                Ok((st, ds)) => r is Ok && final(self).state() == st
                    && deltas_view(final(out)@) == deltas_view(old(out)@) + ds,
                Err(m) => (r matches Err(ProviderError::Stream { provider, message })
                    && provider@ == endpoint@ && message@ == m) && final(self).state() == old(self).state(),
            },
    {
        let value = match Json::parse(frame.data.as_str()) {
            Some(v) => Some(v),
            None => {
                assert(deltas_view(out@) =~= deltas_view(old(out)@) + Seq::<DeltaView>::empty());
                return Ok(());
            }
        };
        let index: usize = match Json::unsigned_of(&Json::member_of(&value, "index")) {
            Some(n) => n as usize,
            None => 0,
        };
        let event = match &frame.event {
            Some(e) => e.as_str(),
            None => "",
        };
        proof { reveal_strlit(""); }
        assert(event@ == event_name(frame.event));
        let ghost start = deltas_view(out@);
        let ghost before = out@;
        if crate::text::str_eq(event, "error") {
            let message = match Json::string_of(&Json::member_of(&Json::member_of(&value, "error"), "message")) {
                Some(m) => m,
                None => crate::text::owned("unknown streaming error"),
            };
            return Err(ProviderError::Stream { provider: crate::text::owned(endpoint), message });
        } else if crate::text::str_eq(event, "message_start") {
            self.start_message(&value, out);
        } else if crate::text::str_eq(event, "content_block_start") {
            self.start_block(&value, index, out);
        } else if crate::text::str_eq(event, "content_block_delta") {
            self.block_delta(&value, index, out);
        } else if crate::text::str_eq(event, "content_block_stop") {
            self.stop_block(index, out);
        } else if crate::text::str_eq(event, "message_delta") {
            self.message_delta(&value, out);
            assert(deltas_view(out@).skip(before.len() as int) =~= message_delta_step(old(self).state(), json_opt_view(value)));
            assert(deltas_view(out@).take(before.len() as int) =~= deltas_view(before));
        } else {
            assert(deltas_view(out@).skip(before.len() as int) =~= Seq::<DeltaView>::empty());
            assert(deltas_view(out@).take(before.len() as int) =~= deltas_view(before));
        }
        assert(deltas_view(out@).len() == out@.len());
        assert(deltas_view(out@) =~= deltas_view(out@).take(before.len() as int) + deltas_view(out@).skip(before.len() as int));
        Ok(())
    }
}

/// Only a turn the model finished on its own reads as complete: no
/// `stop_reason`, `end_turn` or `stop_sequence`. A turn cut off at the token
/// cap reads as incomplete and one that stopped to call a tool as waiting on
/// the caller, whatever else it carries; every other reason is kept as it
/// came. A streamed `message_delta` reads a reason exactly as a whole
/// response does.
pub proof fn law_only_a_finished_turn_reads_as_completed(reason: Option<Seq<char>>)
    ensures
        (stop_status(reason) == StatusView::Completed)
            == (reason is None || reason == Some("end_turn"@) || reason == Some("stop_sequence"@)),
        (stop_status(reason) == StatusView::Incomplete) == (reason == Some("max_tokens"@)),
        (stop_status(reason) == StatusView::RequiresAction) == (reason == Some("tool_use"@)),
        reason matches Some(s) ==> stream_status(Some(s)) == Some(stop_status(reason)),
        reason matches Some(s) ==> (stop_status(reason) is Other ==> stop_status(reason)->Other_0 == s),
{
    reveal_strlit("end_turn");
    reveal_strlit("stop_sequence");
    reveal_strlit("max_tokens");
    reveal_strlit("tool_use");
    assert("max_tokens"@.len() != "end_turn"@.len());
    assert("max_tokens"@.len() != "stop_sequence"@.len());
    assert("max_tokens"@.len() != "tool_use"@.len());
    assert("tool_use"@.len() != "stop_sequence"@.len());
    assert("tool_use"@[0] != "end_turn"@[0]);
}

/// A streamed `error` frame always fails the stream, whatever the decoder
/// has seen before, with the message the frame carries or, when it carries
/// none, a fixed one; and no other frame ever does.
pub proof fn law_an_error_frame_always_fails_the_stream(st: AnthState, event: Seq<char>, data: Seq<char>)
    requires
        json_canonical(data) is Some,
    ensures
        anthropic_step(st, event, data) is Err <==> event == "error"@,
        event == "error"@ ==> anthropic_step(st, event, data) == Err::<(AnthState, Seq<DeltaView>), Seq<char>>(
            match string_at(member(member(json_canonical(data), "error"@), "message"@)) {
                Some(m) => m,
                None => "unknown streaming error"@,
            }),
{
}

/// The kind a tool choice goes by on the Messages wire.
pub open spec fn choice_kind(c: ToolChoice) -> Seq<char> {
    match c {
        ToolChoice::Auto => "auto"@,
        ToolChoice::NoTools => "none"@,
        ToolChoice::Required => "any"@,
        ToolChoice::Named(_) => "tool"@,
    }
}

/// Every tool choice is sent as an object naming its own kind, a named one
/// with the tool's name beside it, and no two kinds of choice share a kind:
/// forcing some tool call can never read as leaving it to the model.
pub proof fn law_each_choice_is_sent_as_its_own_kind(c: ToolChoice, d: ToolChoice)
    ensures
        !(c is Named) ==> choice_wire(c) == json_object_from(seq![("type"@, json_from_string(choice_kind(c)))]),
        c matches ToolChoice::Named(name) ==> choice_wire(c) == json_object_from(seq![
            ("name"@, json_from_string(name@)),
            ("type"@, json_from_string(choice_kind(c))),
        ]),
        choice_kind(c) == choice_kind(d) ==> (c is Named && d is Named) || c == d,
{
    reveal_strlit("auto");
    reveal_strlit("none");
    reveal_strlit("any");
    reveal_strlit("tool");
    assert("auto"@[0] != "none"@[0]);
    assert("auto"@.len() != "any"@.len());
    assert("auto"@[0] != "tool"@[0]);
    assert("none"@.len() != "any"@.len());
    assert("none"@[0] != "tool"@[0]);
    assert("any"@.len() != "tool"@.len());
}

} // verus!
