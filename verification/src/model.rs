//! The provider-neutral request, response and conversation types.
//!
//! Nothing here is vendor-specific. Each dialect converts to and from these
//! types, so application code never names a vendor's wire shape.

use vstd::prelude::*;
use crate::json::Json;

verus! {

/// Who produced a conversation turn.
#[derive(Debug, Clone, Copy, PartialEq, Eq, Structural)]
pub enum Role {
    /// Instructions that frame the whole conversation.
    System,
    /// Instructions from the application developer, ranked above the user.
    Developer,
    /// The end user.
    User,
    /// The model.
    Assistant,
    /// The result of executing a tool the model asked for.
    Tool,
}

/// One part of a conversation turn being sent to the model.
#[derive(Debug, Clone, PartialEq, Eq)]
pub enum InputContent {
    /// Plain text.
    Text(String),
    /// An image, referenced by URL or data URI.
    ImageUrl(String),
    /// A tool call the model previously made, echoed back in the transcript.
    ToolCall {
        /// Correlation id, matched by a tool result's `call_id`.
        id: String,
        /// Name of the tool the model wants to call.
        name: String,
        /// Arguments, as a raw JSON string.
        arguments: String,
    },
    /// The result of running a tool.
    ToolResult {
        /// The id of the tool call being answered.
        call_id: String,
        /// The tool's output, JSON or plain text.
        output: String,
    },
    /// Opaque provider state that must be replayed verbatim.
    Reasoning {
        /// The provider's own representation, replayed as received.
        data: Json,
    },
}

/// A single conversation turn.
#[derive(Debug, Clone, PartialEq, Eq)]
pub struct Message {
    /// Who produced this turn.
    pub role: Role,
    /// The parts making up this turn.
    pub content: Vec<InputContent>,
}

/// How much internal reasoning the model should spend before answering.
#[derive(Debug, Clone, Copy, PartialEq, Eq, Structural)]
pub enum ReasoningEffort {
    /// No internal reasoning (`none` on the wire).
    Off,
    /// The smallest amount the provider supports.
    Minimal,
    /// Low.
    Low,
    /// Medium.
    Medium,
    /// High.
    High,
    /// Above high.
    Xhigh,
    /// The largest amount the provider supports.
    Max,
}

/// The shape the model's response must take.
#[derive(Debug, Clone, PartialEq, Eq)]
pub enum ResponseFormat {
    /// Free-form text.
    Text,
    /// Any valid JSON object.
    JsonObject,
    /// JSON conforming to a specific schema.
    JsonSchema {
        /// Schema name reported to the provider.
        name: String,
        /// The JSON Schema itself.
        schema: Json,
        /// Whether the provider must enforce the schema exactly.
        strict: bool,
    },
}

/// A function the model is allowed to call.
#[derive(Debug, Clone, PartialEq, Eq)]
pub struct ToolDefinition {
    /// Tool name, as the model will refer to it.
    pub name: String,
    /// What the tool does.
    pub description: Option<String>,
    /// JSON Schema for the tool's arguments.
    pub parameters: Json,
    /// Whether the provider must enforce `parameters` exactly.
    pub strict: Option<bool>,
}

/// Whether the model must call a tool, and which one.
#[derive(Debug, Clone, PartialEq, Eq)]
pub enum ToolChoice {
    /// The model decides.
    Auto,
    /// The model may not call any tool (`none` on the wire).
    NoTools,
    /// The model must call some tool.
    Required,
    /// The model must call this specific tool.
    Named(String),
}

/// A provider-neutral generation request.
///
/// Every field is optional except `messages`. A field left as `None` means
/// "use the provider's own default". The two sampling controls are carried as
/// the bit pattern of the `f32` the caller chose (`f32::to_bits`), and handed
/// to the wire unchanged.
#[derive(Debug, Clone, PartialEq, Eq)]
pub struct GenerateRequest {
    /// Model identifier. `None` uses the endpoint's default model.
    pub model: Option<String>,
    /// Conversation turns, in order.
    pub messages: Vec<Message>,
    /// Upper bound on tokens the model may generate.
    pub max_tokens: Option<u32>,
    /// Sampling temperature, as the bits of an `f32`.
    pub temperature: Option<u32>,
    /// Nucleus sampling cutoff, as the bits of an `f32`.
    pub top_p: Option<u32>,
    /// How much internal reasoning the model should spend before answering.
    pub reasoning_effort: Option<ReasoningEffort>,
    /// Shape the response must take.
    pub response_format: Option<ResponseFormat>,
    /// Functions the model is allowed to call.
    pub tools: Vec<ToolDefinition>,
    /// Whether the model must call a tool, and which one.
    pub tool_choice: Option<ToolChoice>,
    /// Server-side conversation continuation token from a previous response.
    pub previous_response_id: Option<String>,
    /// Free-form metadata forwarded to the provider.
    pub metadata: Option<Json>,
}

/// Why a response ended.
#[derive(Debug, Clone, PartialEq, Eq)]
pub enum ResponseStatus {
    /// The model finished normally.
    Completed,
    /// The model was cut short, typically by a token limit.
    Incomplete,
    /// The model is waiting on tool results.
    RequiresAction,
    /// The provider failed to produce a response.
    Failed,
    /// A status the library does not model, preserved verbatim.
    Other(String),
}

/// One part of what the model produced.
#[derive(Debug, Clone, PartialEq, Eq)]
pub enum OutputContent {
    /// Generated text.
    Text(String),
    /// The model declined to answer.
    Refusal(String),
    /// The model wants a tool executed.
    ToolCall {
        /// Correlation id to quote back in a tool result.
        id: String,
        /// Name of the tool to run.
        name: String,
        /// Arguments, as a raw JSON string.
        arguments: String,
    },
    /// Opaque provider state that must be replayed verbatim.
    Reasoning {
        /// The provider's own representation, preserved as received.
        data: Json,
    },
}

/// Token accounting for one request.
#[derive(Debug, Clone, Copy, PartialEq, Eq)]
pub struct Usage {
    /// Tokens consumed by the prompt.
    pub input_tokens: u64,
    /// Tokens produced by the model.
    pub output_tokens: u64,
    /// Total tokens billed.
    pub total_tokens: u64,
}

/// A provider-neutral generation response.
#[derive(Debug, Clone, PartialEq, Eq)]
pub struct GenerateResponse {
    /// Provider-assigned response id.
    pub id: String,
    /// The model that actually served the request.
    pub model: String,
    /// Why the response ended.
    pub status: ResponseStatus,
    /// The parts the model produced.
    pub content: Vec<OutputContent>,
    /// Token accounting, when the provider reports it.
    pub usage: Option<Usage>,
    /// Provider fields the library does not model, preserved verbatim.
    pub provider_metadata: Option<Json>,
}

/// The request with no field populated.
pub open spec fn empty_request() -> RequestView {
    RequestView {
        model: None,
        messages: Seq::empty(),
        max_tokens: None,
        temperature: None,
        top_p: None,
        reasoning_effort: None,
        response_format: None,
        tools: Seq::empty(),
        tool_choice: None,
        previous_response_id: None,
        metadata: None,
    }
}

impl Default for GenerateRequest {
    fn default() -> (r: Self)
        ensures
            r@ == empty_request(),
    {
        GenerateRequest {
            model: None,
            messages: Vec::new(),
            max_tokens: None,
            temperature: None,
            top_p: None,
            reasoning_effort: None,
            response_format: None,
            tools: Vec::new(),
            tool_choice: None,
            previous_response_id: None,
            metadata: None,
        }
    }
}

/// The request as a value of sequences, so two requests with the same
/// contents compare equal.
pub struct RequestView {
    pub model: Option<Seq<char>>,
    pub messages: Seq<Message>,
    pub max_tokens: Option<u32>,
    pub temperature: Option<u32>,
    pub top_p: Option<u32>,
    pub reasoning_effort: Option<ReasoningEffort>,
    pub response_format: Option<ResponseFormat>,
    pub tools: Seq<ToolDefinition>,
    pub tool_choice: Option<ToolChoice>,
    pub previous_response_id: Option<Seq<char>>,
    pub metadata: Option<Json>,
}

impl View for GenerateRequest {
    type V = RequestView;

    open spec fn view(&self) -> RequestView {
        RequestView {
            model: match self.model { Some(m) => Some(m@), None => None },
            messages: self.messages@,
            max_tokens: self.max_tokens,
            temperature: self.temperature,
            top_p: self.top_p,
            reasoning_effort: self.reasoning_effort,
            response_format: self.response_format,
            tools: self.tools@,
            tool_choice: self.tool_choice,
            previous_response_id: match self.previous_response_id { Some(p) => Some(p@), None => None },
            metadata: self.metadata,
        }
    }
}

impl GenerateRequest {
    /// Creates an empty request. No capability is given a default.
    pub fn new() -> (r: Self)
        ensures
            r@ == empty_request(),
    {
        Self::default()
    }

    /// Sets the model identifier.
    pub fn model(self, model: &str) -> (r: Self)
        ensures
            r@ == (RequestView { model: Some(model@), ..self@ }),
    {
        GenerateRequest { model: Some(crate::text::owned(model)), ..self }
    }

    /// Appends a single message to the conversation.
    pub fn message(self, message: Message) -> (r: Self)
        ensures
            r@ == (RequestView { messages: self@.messages.push(message), ..self@ }),
    {
        let mut this = self;
        this.messages.push(message);
        this
    }

    /// Replaces the whole conversation.
    pub fn messages(self, messages: Vec<Message>) -> (r: Self)
        ensures
            r@ == (RequestView { messages: messages@, ..self@ }),
    {
        GenerateRequest { messages, ..self }
    }

    /// Appends several messages to the conversation.
    pub fn extend_messages(self, messages: Vec<Message>) -> (r: Self)
        ensures
            r@ == (RequestView { messages: self@.messages + messages@, ..self@ }),
    {
        let mut this = self;
        let mut more = messages;
        this.messages.append(&mut more);
        this
    }

    /// Sets the output token cap.
    pub fn max_tokens(self, value: u32) -> (r: Self)
        ensures
            r@ == (RequestView { max_tokens: Some(value), ..self@ }),
    {
        GenerateRequest { max_tokens: Some(value), ..self }
    }

    /// Sets the sampling temperature, given as the bits of an `f32`.
    pub fn temperature(self, bits: u32) -> (r: Self)
        ensures
            r@ == (RequestView { temperature: Some(bits), ..self@ }),
    {
        GenerateRequest { temperature: Some(bits), ..self }
    }

    /// Sets the nucleus sampling cutoff, given as the bits of an `f32`.
    pub fn top_p(self, bits: u32) -> (r: Self)
        ensures
            r@ == (RequestView { top_p: Some(bits), ..self@ }),
    {
        GenerateRequest { top_p: Some(bits), ..self }
    }

    /// Declares the tools the model may call.
    pub fn tools(self, tools: Vec<ToolDefinition>) -> (r: Self)
        ensures
            r@ == (RequestView { tools: tools@, ..self@ }),
    {
        GenerateRequest { tools, ..self }
    }

    /// Constrains which tool the model may call.
    pub fn tool_choice(self, choice: ToolChoice) -> (r: Self)
        ensures
            r@ == (RequestView { tool_choice: Some(choice), ..self@ }),
    {
        GenerateRequest { tool_choice: Some(choice), ..self }
    }

    /// Sets how much internal reasoning the model should spend.
    pub fn reasoning_effort(self, effort: ReasoningEffort) -> (r: Self)
        ensures
            r@ == (RequestView { reasoning_effort: Some(effort), ..self@ }),
    {
        GenerateRequest { reasoning_effort: Some(effort), ..self }
    }

    /// Constrains the shape of the response.
    pub fn response_format(self, format: ResponseFormat) -> (r: Self)
        ensures
            r@ == (RequestView { response_format: Some(format), ..self@ }),
    {
        GenerateRequest { response_format: Some(format), ..self }
    }

    /// Continues a server-side conversation from a previous response id.
    pub fn previous_response_id(self, id: &str) -> (r: Self)
        ensures
            r@ == (RequestView { previous_response_id: Some(id@), ..self@ }),
    {
        GenerateRequest { previous_response_id: Some(crate::text::owned(id)), ..self }
    }

    /// Attaches provider metadata.
    pub fn metadata(self, metadata: Json) -> (r: Self)
        ensures
            r@ == (RequestView { metadata: Some(metadata), ..self@ }),
    {
        GenerateRequest { metadata: Some(metadata), ..self }
    }
}

impl Message {
    /// Creates a message from a role and raw parts.
    pub fn new(role: Role, content: Vec<InputContent>) -> (r: Self)
        ensures
            r.role == role,
            r.content@ == content@,
    {
        Message { role, content }
    }

    /// Creates a single-part text message.
    pub fn text(role: Role, text: &str) -> (r: Self)
        ensures
            r.role == role,
            r.content@.len() == 1,
            r.content@[0] matches InputContent::Text(t) && t@ == text@,
    {
        Message { role, content: vec![InputContent::Text(crate::text::owned(text))] }
    }

    /// Creates the turn that carries a tool's result back to the model.
    pub fn tool_result(call_id: &str, output: &str) -> (r: Self)
        ensures
            r.role == Role::Tool,
            r.content@.len() == 1,
            r.content@[0] matches InputContent::ToolResult { call_id: c, output: o }
                && c@ == call_id@ && o@ == output@,
    {
        Message {
            role: Role::Tool,
            content: vec![InputContent::ToolResult {
                call_id: crate::text::owned(call_id),
                output: crate::text::owned(output),
            }],
        }
    }
}

impl ToolDefinition {
    /// Creates a tool definition with no parameter schema.
    pub fn new(name: &str, description: &str) -> (r: Self)
        ensures
            r.name@ == name@,
            r.description matches Some(d) && d@ == description@,
            r.parameters@ == "null"@,
            r.strict is None,
    {
        ToolDefinition {
            name: crate::text::owned(name),
            description: Some(crate::text::owned(description)),
            parameters: Json::null(),
            strict: None,
        }
    }

    /// Sets the JSON Schema describing the tool's arguments.
    pub fn parameters(self, parameters: Json) -> (r: Self)
        ensures
            r.name == self.name,
            r.description == self.description,
            r.parameters == parameters,
            r.strict == self.strict,
    {
        ToolDefinition { parameters, ..self }
    }

    /// Requests strict schema enforcement.
    pub fn strict(self, strict: bool) -> (r: Self)
        ensures
            r.name == self.name,
            r.description == self.description,
            r.parameters == self.parameters,
            r.strict == Some(strict),
    {
        ToolDefinition { strict: Some(strict), ..self }
    }
}

/// The wire spelling of an effort level.
pub open spec fn effort_name(e: ReasoningEffort) -> Seq<char> {
    match e {
        ReasoningEffort::Off => "none"@,
        ReasoningEffort::Minimal => "minimal"@,
        ReasoningEffort::Low => "low"@,
        ReasoningEffort::Medium => "medium"@,
        ReasoningEffort::High => "high"@,
        ReasoningEffort::Xhigh => "xhigh"@,
        ReasoningEffort::Max => "max"@,
    }
}

/// The wire spelling of an effort level.
pub fn effort_text(e: ReasoningEffort) -> (r: &'static str)
    ensures
        r@ == effort_name(e),
{
    match e {
        ReasoningEffort::Off => "none",
        ReasoningEffort::Minimal => "minimal",
        ReasoningEffort::Low => "low",
        ReasoningEffort::Medium => "medium",
        ReasoningEffort::High => "high",
        ReasoningEffort::Xhigh => "xhigh",
        ReasoningEffort::Max => "max",
    }
}

/// A status, by the characters it holds.
pub enum StatusView {
    Completed,
    Incomplete,
    RequiresAction,
    Failed,
    Other(Seq<char>),
}

pub open spec fn status_view(s: ResponseStatus) -> StatusView {
    match s {
        ResponseStatus::Completed => StatusView::Completed,
        ResponseStatus::Incomplete => StatusView::Incomplete,
        ResponseStatus::RequiresAction => StatusView::RequiresAction,
        ResponseStatus::Failed => StatusView::Failed,
        ResponseStatus::Other(t) => StatusView::Other(t@),
    }
}

/// An output part, by the characters it holds.
pub enum PartView {
    Text(Seq<char>),
    Refusal(Seq<char>),
    ToolCall(Seq<char>, Seq<char>, Seq<char>),
    Reasoning(Seq<char>),
}

pub open spec fn part_view(o: OutputContent) -> PartView {
    match o {
        OutputContent::Text(t) => PartView::Text(t@),
        OutputContent::Refusal(t) => PartView::Refusal(t@),
        OutputContent::ToolCall { id, name, arguments } => PartView::ToolCall(id@, name@, arguments@),
        OutputContent::Reasoning { data } => PartView::Reasoning(data@),
    }
}

/// Every text part, concatenated in order. Refusals are not text.
pub open spec fn output_text_of(content: Seq<OutputContent>) -> Seq<char>
    decreases content.len(),
{
    if content.len() == 0 {
        Seq::empty()
    } else {
        output_text_of(content.drop_last()) + match content.last() {
            OutputContent::Text(t) => t@,
            _ => Seq::empty(),
        }
    }
}

/// The tool calls among the parts, in order, as (id, name, arguments).
pub open spec fn tool_calls_of(content: Seq<OutputContent>) -> Seq<(Seq<char>, Seq<char>, Seq<char>)>
    decreases content.len(),
{
    if content.len() == 0 {
        Seq::empty()
    } else {
        tool_calls_of(content.drop_last()) + match content.last() {
            OutputContent::ToolCall { id, name, arguments } => seq![(id@, name@, arguments@)],
            _ => Seq::empty(),
        }
    }
}

/// The input part an output part becomes when replayed. A refusal reads as
/// text in a transcript.
pub open spec fn replayed(part: OutputContent) -> InputContent {
    match part {
        OutputContent::Text(t) => InputContent::Text(t),
        OutputContent::Refusal(t) => InputContent::Text(t),
        OutputContent::ToolCall { id, name, arguments } => InputContent::ToolCall { id, name, arguments },
        OutputContent::Reasoning { data } => InputContent::Reasoning { data },
    }
}

impl GenerateResponse {
    /// Concatenates every text part into one string.
    pub fn output_text(&self) -> (r: String)
        ensures
            r@ == output_text_of(self.content@),
    {
        let mut out = String::new();
        let mut i: usize = 0;
        while i < self.content.len()
            invariant
                i <= self.content@.len(),
                out@ == output_text_of(self.content@.take(i as int)),
            decreases self.content@.len() - i,
        {
            assert(self.content@.take(i + 1).drop_last() == self.content@.take(i as int));
            match &self.content[i] {
                OutputContent::Text(text) => out.append(text.as_str()),
                _ => {}
            }
            i = i + 1;
        }
        assert(self.content@.take(self.content@.len() as int) == self.content@);
        out
    }

    /// The tool calls the model requested, in order, as (id, name, arguments).
    pub fn tool_calls(&self) -> (r: Vec<(&str, &str, &str)>)
        ensures
            r@.map_values(|c: (&str, &str, &str)| (c.0@, c.1@, c.2@)) == tool_calls_of(self.content@),
    {
        let mut out: Vec<(&str, &str, &str)> = Vec::new();
        let mut i: usize = 0;
        while i < self.content.len()
            invariant
                i <= self.content@.len(),
                out@.map_values(|c: (&str, &str, &str)| (c.0@, c.1@, c.2@)) == tool_calls_of(self.content@.take(i as int)),
            decreases self.content@.len() - i,
        {
            assert(self.content@.take(i + 1).drop_last() == self.content@.take(i as int));
            match &self.content[i] {
                OutputContent::ToolCall { id, name, arguments } => {
                    out.push((id.as_str(), name.as_str(), arguments.as_str()));
                }
                _ => {}
            }
            i = i + 1;
        }
        assert(self.content@.take(self.content@.len() as int) == self.content@);
        out
    }

    /// Whether the model asked for at least one tool call.
    pub fn has_tool_calls(&self) -> (r: bool)
        ensures
            r == (tool_calls_of(self.content@).len() > 0),
    {
        let calls = self.tool_calls();
        proof {
            assert(calls@.map_values(|c: (&str, &str, &str)| (c.0@, c.1@, c.2@)).len() == calls@.len());
        }
        calls.len() > 0
    }

    /// Converts this response into an assistant turn, so it can be appended to
    /// the transcript before sending tool results back.
    pub fn to_message(&self) -> (r: Message)
        ensures
            r.role == Role::Assistant,
            r.content@ == self.content@.map_values(|p: OutputContent| replayed(p)),
    {
        let mut content: Vec<InputContent> = Vec::new();
        let mut i: usize = 0;
        while i < self.content.len()
            invariant
                i <= self.content@.len(),
                content@ == self.content@.take(i as int).map_values(|p: OutputContent| replayed(p)),
            decreases self.content@.len() - i,
        {
            let part = match &self.content[i] {
                OutputContent::Text(text) => InputContent::Text(text.clone()),
                OutputContent::Refusal(text) => InputContent::Text(text.clone()),
                OutputContent::ToolCall { id, name, arguments } => InputContent::ToolCall {
                    id: id.clone(),
                    name: name.clone(),
                    arguments: arguments.clone(),
                },
                OutputContent::Reasoning { data } => InputContent::Reasoning { data: data.duplicate() },
            };
            content.push(part);
            assert(self.content@.take(i + 1).map_values(|p: OutputContent| replayed(p))
                == self.content@.take(i as int).map_values(|p: OutputContent| replayed(p)).push(replayed(self.content@[i as int])));
            i = i + 1;
        }
        assert(self.content@.take(self.content@.len() as int) == self.content@);
        Message { role: Role::Assistant, content }
    }
}

/// The tool calls a turn carries, in order, as (id, name, arguments).
pub open spec fn input_calls_of(content: Seq<InputContent>) -> Seq<(Seq<char>, Seq<char>, Seq<char>)>
    decreases content.len(),
{
    if content.len() == 0 {
        Seq::empty()
    } else {
        input_calls_of(content.drop_last()) + match content.last() {
            InputContent::ToolCall { id, name, arguments } => seq![(id@, name@, arguments@)],
            _ => Seq::empty(),
        }
    }
}

/// Replaying a response as the assistant's turn carries every tool call it
/// requested, in order and unchanged, so the results a caller sends back
/// answer exactly the calls `tool_calls` reported.
pub proof fn law_the_replayed_turn_carries_the_calls(content: Seq<OutputContent>)
    ensures
        input_calls_of(content.map_values(|p: OutputContent| replayed(p))) == tool_calls_of(content),
    decreases content.len(),
{
    if content.len() > 0 {
        law_the_replayed_turn_carries_the_calls(content.drop_last());
        assert(content.map_values(|p: OutputContent| replayed(p)).drop_last()
            == content.drop_last().map_values(|p: OutputContent| replayed(p)));
    }
}

} // verus!
