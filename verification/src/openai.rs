//! A typed model of the OpenAI Responses API, for callers who talk to it
//! directly: a request builder, and readers over the response.

use vstd::prelude::*;
use crate::json::Json;

verus! {

/// The model a request names when the caller names none.
pub const DEFAULT_MODEL: &'static str = "gpt-5.6-sol";

/// A Responses request. The two sampling controls are the bits of the
/// caller's `f32`.
#[derive(Debug, Clone, PartialEq, Eq)]
pub struct ResponseRequest {
    pub model: String,
    pub input: Option<ResponseInput>,
    pub instructions: Option<String>,
    pub temperature: Option<u32>,
    pub top_p: Option<u32>,
    pub max_output_tokens: Option<u32>,
    pub reasoning: Option<Reasoning>,
    pub text: Option<TextConfig>,
    pub tools: Option<Vec<Tool>>,
    pub tool_choice: Option<ToolChoice>,
    pub previous_response_id: Option<String>,
    pub metadata: Option<Json>,
    pub store: Option<bool>,
    pub stream: Option<bool>,
    pub user: Option<String>,
}

/// The input: a bare string, or a list of messages.
#[derive(Debug, Clone, PartialEq, Eq)]
pub enum ResponseInput {
    Text(String),
    Messages(Vec<InputMessage>),
}

/// One input message.
#[derive(Debug, Clone, PartialEq, Eq)]
pub struct InputMessage {
    pub role: Role,
    pub content: Vec<InputContent>,
}

/// Who wrote an input message.
#[derive(Debug, Clone, Copy, PartialEq, Eq, Structural)]
pub enum Role {
    System,
    Developer,
    User,
    Assistant,
}

/// One part of an input message.
#[derive(Debug, Clone, PartialEq, Eq)]
pub enum InputContent {
    Text { text: String },
    Image { image_url: String },
}

/// How much reasoning to spend.
#[derive(Debug, Clone, Copy, PartialEq, Eq)]
pub struct Reasoning {
    pub effort: ReasoningEffort,
}

/// An effort level (`none` on the wire for `Off`).
#[derive(Debug, Clone, Copy, PartialEq, Eq, Structural)]
pub enum ReasoningEffort {
    Off,
    Minimal,
    Low,
    Medium,
    High,
    Xhigh,
    Max,
}

/// The shape the output must take.
#[derive(Debug, Clone, PartialEq, Eq)]
pub struct TextConfig {
    pub format: TextFormat,
}

/// An output format.
#[derive(Debug, Clone, PartialEq, Eq)]
pub enum TextFormat {
    Text,
    JsonObject,
    JsonSchema { name: String, schema: Json, strict: bool },
}

/// A tool the model may use.
#[derive(Debug, Clone, PartialEq, Eq)]
pub enum Tool {
    WebSearch {},
    FileSearch {},
    Function { name: String, description: Option<String>, parameters: Json, strict: Option<bool> },
}

/// Whether the model must use a tool, and which (`none` on the wire for
/// `NoTools`).
#[derive(Debug, Clone, PartialEq, Eq)]
pub enum ToolChoice {
    Auto,
    NoTools,
    Required,
    Named { tool_type: String, name: String },
}

/// A Responses response.
#[derive(Debug, Clone, PartialEq, Eq)]
pub struct Response {
    pub id: String,
    pub object: String,
    pub created_at: u64,
    pub status: String,
    pub model: String,
    pub output: Vec<ResponseOutput>,
    pub usage: Option<Usage>,
    pub error: Option<ResponseError>,
    pub metadata: Option<Json>,
}

/// One output item.
#[derive(Debug, Clone, PartialEq, Eq)]
pub enum ResponseOutput {
    Message { id: String, role: String, content: Vec<OutputContent> },
    FunctionCall { id: String, call_id: String, name: String, arguments: String },
    /// An item type this model does not read.
    Unknown,
}

/// One part of an output message.
#[derive(Debug, Clone, PartialEq, Eq)]
pub enum OutputContent {
    Text { text: String },
    Refusal { refusal: String },
    /// A part type this model does not read.
    Unknown,
}

/// Token accounting.
#[derive(Debug, Clone, Copy, PartialEq, Eq)]
pub struct Usage {
    pub input_tokens: u32,
    pub output_tokens: u32,
    pub total_tokens: u32,
}

/// Why a response failed.
#[derive(Debug, Clone, PartialEq, Eq)]
pub struct ResponseError {
    pub code: Option<String>,
    pub message: String,
}

/// A function call in a response, borrowed.
#[derive(Debug, Clone, Copy, PartialEq, Eq)]
pub struct FunctionCallRef<'a> {
    pub id: &'a str,
    pub call_id: &'a str,
    pub name: &'a str,
    pub arguments: &'a str,
}

/// One readable item of a response, borrowed.
#[derive(Debug, Clone, Copy, PartialEq, Eq)]
pub enum ResponseType<'a> {
    Text(&'a str),
    Refusal(&'a str),
    FunctionCall(FunctionCallRef<'a>),
}

/// A readable item, by the characters it holds: a text, a refusal, or a
/// call's (id, call id, name, arguments).
pub enum ItemView {
    Text(Seq<char>),
    Refusal(Seq<char>),
    FunctionCall(Seq<char>, Seq<char>, Seq<char>, Seq<char>),
}

pub open spec fn call_view(c: FunctionCallRef) -> (Seq<char>, Seq<char>, Seq<char>, Seq<char>) {
    (c.id@, c.call_id@, c.name@, c.arguments@)
}

pub open spec fn item_view(t: ResponseType) -> ItemView {
    match t {
        ResponseType::Text(s) => ItemView::Text(s@),
        ResponseType::Refusal(s) => ItemView::Refusal(s@),
        ResponseType::FunctionCall(c) => ItemView::FunctionCall(c.id@, c.call_id@, c.name@, c.arguments@),
    }
}

/// The readable item one output part is.
pub open spec fn part_item(c: OutputContent) -> Seq<ItemView> {
    match c {
        OutputContent::Text { text } => seq![ItemView::Text(text@)],
        OutputContent::Refusal { refusal } => seq![ItemView::Refusal(refusal@)],
        OutputContent::Unknown => Seq::empty(),
    }
}

pub open spec fn parts_items(cs: Seq<OutputContent>) -> Seq<ItemView>
    decreases cs.len(),
{
    if cs.len() == 0 {
        Seq::empty()
    } else {
        parts_items(cs.drop_last()) + part_item(cs.last())
    }
}

/// The readable items of one output item, in order.
pub open spec fn output_items(o: ResponseOutput) -> Seq<ItemView> {
    match o {
        ResponseOutput::Message { content, .. } => parts_items(content@),
        ResponseOutput::FunctionCall { id, call_id, name, arguments } =>
            seq![ItemView::FunctionCall(id@, call_id@, name@, arguments@)],
        ResponseOutput::Unknown => Seq::empty(),
    }
}

/// Every readable item of a response, in order.
pub open spec fn all_items(os: Seq<ResponseOutput>) -> Seq<ItemView>
    decreases os.len(),
{
    if os.len() == 0 {
        Seq::empty()
    } else {
        all_items(os.drop_last()) + output_items(os.last())
    }
}

/// The texts among some items, in order.
pub open spec fn texts_of(items: Seq<ItemView>) -> Seq<Seq<char>>
    decreases items.len(),
{
    if items.len() == 0 {
        Seq::empty()
    } else {
        texts_of(items.drop_last()) + match items.last() {
            ItemView::Text(t) => seq![t],
            _ => Seq::empty(),
        }
    }
}

/// The refusals among some items, in order.
pub open spec fn refusals_of(items: Seq<ItemView>) -> Seq<Seq<char>>
    decreases items.len(),
{
    if items.len() == 0 {
        Seq::empty()
    } else {
        refusals_of(items.drop_last()) + match items.last() {
            ItemView::Refusal(t) => seq![t],
            _ => Seq::empty(),
        }
    }
}

/// The function calls among some items, in order.
pub open spec fn calls_of(items: Seq<ItemView>) -> Seq<(Seq<char>, Seq<char>, Seq<char>, Seq<char>)>
    decreases items.len(),
{
    if items.len() == 0 {
        Seq::empty()
    } else {
        calls_of(items.drop_last()) + match items.last() {
            ItemView::FunctionCall(a, b, c, d) => seq![(a, b, c, d)],
            _ => Seq::empty(),
        }
    }
}

/// Strings concatenated in order.
pub open spec fn concat(ss: Seq<Seq<char>>) -> Seq<char>
    decreases ss.len(),
{
    if ss.len() == 0 {
        Seq::empty()
    } else {
        concat(ss.drop_last()) + ss.last()
    }
}


pub open spec fn items_view(v: Seq<ResponseType>) -> Seq<ItemView> {
    v.map_values(|t: ResponseType| item_view(t))
}

impl OutputContent {
    /// The text, when this part is text.
    pub fn as_text(&self) -> (r: Option<&str>)
        ensures
            match self {
                OutputContent::Text { text } => r matches Some(s) && s@ == text@,
                _ => r is None,
            },
    {
        match self {
            OutputContent::Text { text } => Some(text.as_str()),
            _ => None,
        }
    }

    /// The refusal, when this part is a refusal.
    pub fn as_refusal(&self) -> (r: Option<&str>)
        ensures
            match self {
                OutputContent::Refusal { refusal } => r matches Some(s) && s@ == refusal@,
                _ => r is None,
            },
    {
        match self {
            OutputContent::Refusal { refusal } => Some(refusal.as_str()),
            _ => None,
        }
    }

    /// This part as a readable item, unless its type is unknown.
    fn as_response_item(&self) -> (r: Option<ResponseType<'_>>)
        ensures
            match r { Some(t) => seq![item_view(t)], None => Seq::<ItemView>::empty() } == part_item(*self),
    {
        match self {
            OutputContent::Text { text } => Some(ResponseType::Text(text.as_str())),
            OutputContent::Refusal { refusal } => Some(ResponseType::Refusal(refusal.as_str())),
            OutputContent::Unknown => None,
        }
    }
}

impl ResponseOutput {
    /// The call, when this item is a function call.
    pub fn as_function_call(&self) -> (r: Option<FunctionCallRef<'_>>)
        ensures
            match self {
                ResponseOutput::FunctionCall { id, call_id, name, arguments } =>
                    r matches Some(c) && call_view(c) == (id@, call_id@, name@, arguments@),
                _ => r is None,
            },
    {
        match self {
            ResponseOutput::FunctionCall { id, call_id, name, arguments } => Some(FunctionCallRef {
                id: id.as_str(),
                call_id: call_id.as_str(),
                name: name.as_str(),
                arguments: arguments.as_str(),
            }),
            _ => None,
        }
    }

    /// The readable items of this output item, in order.
    pub fn items(&self) -> (r: Vec<ResponseType<'_>>)
        ensures
            items_view(r@) == output_items(*self),
    {
        let mut out: Vec<ResponseType<'_>> = Vec::new();
        match self {
            ResponseOutput::Message { content, .. } => {
                let mut i: usize = 0;
                assert(content@.take(0) =~= Seq::<OutputContent>::empty());
                assert(items_view(out@) =~= Seq::<ItemView>::empty());
                while i < content.len()
                    invariant
                        i <= content@.len(),
                        items_view(out@) == parts_items(content@.take(i as int)),
                    decreases content@.len() - i,
                {
                    assert(content@.take(i + 1).drop_last() == content@.take(i as int));
                    assert(content@.take(i + 1).last() == content@[i as int]);
                    let ghost before = items_view(out@);
                    match content[i].as_response_item() {
                        Some(t) => {
                            out.push(t);
                        }
                        None => {}
                    }
                    assert(items_view(out@) =~= before + part_item(content@[i as int]));
                    i = i + 1;
                }
                assert(content@.take(content@.len() as int) == content@);
            }
            ResponseOutput::FunctionCall { .. } => {
                match self.as_function_call() {
                    Some(c) => out.push(ResponseType::FunctionCall(c)),
                    None => {}
                }
                assert(items_view(out@) =~= output_items(*self));
            }
            ResponseOutput::Unknown => {
                assert(items_view(out@) =~= Seq::<ItemView>::empty());
            }
        }
        out
    }
}

/// The texts of some items, in order.
fn texts_exec<'a>(items: &Vec<ResponseType<'a>>) -> (r: Vec<&'a str>)
    ensures
        r@.map_values(|s: &str| s@) == texts_of(items_view(items@)),
{
    let ghost iv = items_view(items@);
    let mut out: Vec<&'a str> = Vec::new();
    let mut i: usize = 0;
    assert(iv.take(0) =~= Seq::<ItemView>::empty());
    assert(out@.map_values(|s: &str| s@) =~= Seq::<Seq<char>>::empty());
    while i < items.len()
        invariant
            i <= items@.len(),
            iv == items_view(items@),
            out@.map_values(|s: &str| s@) == texts_of(iv.take(i as int)),
        decreases items@.len() - i,
    {
        assert(iv.take(i + 1).drop_last() == iv.take(i as int));
        assert(iv.take(i + 1).last() == item_view(items@[i as int]));
        let ghost before = out@.map_values(|s: &str| s@);
        match items[i] {
            ResponseType::Text(t) => {
                out.push(t);
                assert(out@.map_values(|s: &str| s@) =~= before.push(t@));
            }
            _ => {
                assert(out@.map_values(|s: &str| s@) =~= before);
            }
        }
        i = i + 1;
    }
    assert(iv.take(iv.len() as int) == iv);
    out
}

/// The refusals of some items, in order.
fn refusals_exec<'a>(items: &Vec<ResponseType<'a>>) -> (r: Vec<&'a str>)
    ensures
        r@.map_values(|s: &str| s@) == refusals_of(items_view(items@)),
{
    let ghost iv = items_view(items@);
    let mut out: Vec<&'a str> = Vec::new();
    let mut i: usize = 0;
    assert(iv.take(0) =~= Seq::<ItemView>::empty());
    assert(out@.map_values(|s: &str| s@) =~= Seq::<Seq<char>>::empty());
    while i < items.len()
        invariant
            i <= items@.len(),
            iv == items_view(items@),
            out@.map_values(|s: &str| s@) == refusals_of(iv.take(i as int)),
        decreases items@.len() - i,
    {
        assert(iv.take(i + 1).drop_last() == iv.take(i as int));
        assert(iv.take(i + 1).last() == item_view(items@[i as int]));
        let ghost before = out@.map_values(|s: &str| s@);
        match items[i] {
            ResponseType::Refusal(t) => {
                out.push(t);
                assert(out@.map_values(|s: &str| s@) =~= before.push(t@));
            }
            _ => {
                assert(out@.map_values(|s: &str| s@) =~= before);
            }
        }
        i = i + 1;
    }
    assert(iv.take(iv.len() as int) == iv);
    out
}

/// The function calls of some items, in order.
fn calls_exec<'a>(items: &Vec<ResponseType<'a>>) -> (r: Vec<FunctionCallRef<'a>>)
    ensures
        r@.map_values(|c: FunctionCallRef| call_view(c)) == calls_of(items_view(items@)),
{
    let ghost iv = items_view(items@);
    let mut out: Vec<FunctionCallRef<'a>> = Vec::new();
    let mut i: usize = 0;
    assert(iv.take(0) =~= Seq::<ItemView>::empty());
    assert(out@.map_values(|c: FunctionCallRef| call_view(c)) =~= Seq::<(Seq<char>, Seq<char>, Seq<char>, Seq<char>)>::empty());
    while i < items.len()
        invariant
            i <= items@.len(),
            iv == items_view(items@),
            out@.map_values(|c: FunctionCallRef| call_view(c)) == calls_of(iv.take(i as int)),
        decreases items@.len() - i,
    {
        assert(iv.take(i + 1).drop_last() == iv.take(i as int));
        assert(iv.take(i + 1).last() == item_view(items@[i as int]));
        let ghost before = out@.map_values(|c: FunctionCallRef| call_view(c));
        match items[i] {
            ResponseType::FunctionCall(c) => {
                out.push(c);
                assert(out@.map_values(|c: FunctionCallRef| call_view(c)) =~= before.push(call_view(c)));
            }
            _ => {
                assert(out@.map_values(|c: FunctionCallRef| call_view(c)) =~= before);
            }
        }
        i = i + 1;
    }
    assert(iv.take(iv.len() as int) == iv);
    out
}

impl Response {
    /// Every readable item, in order: message texts and refusals, and calls.
    pub fn items(&self) -> (r: Vec<ResponseType<'_>>)
        ensures
            items_view(r@) == all_items(self.output@),
    {
        let mut out: Vec<ResponseType<'_>> = Vec::new();
        let mut i: usize = 0;
        assert(self.output@.take(0) =~= Seq::<ResponseOutput>::empty());
        assert(items_view(out@) =~= Seq::<ItemView>::empty());
        while i < self.output.len()
            invariant
                i <= self.output@.len(),
                items_view(out@) == all_items(self.output@.take(i as int)),
            decreases self.output@.len() - i,
        {
            assert(self.output@.take(i + 1).drop_last() == self.output@.take(i as int));
            assert(self.output@.take(i + 1).last() == self.output@[i as int]);
            let ghost before = items_view(out@);
            let mut more = self.output[i].items();
            let ghost added = items_view(more@);
            out.append(&mut more);
            assert(items_view(out@) =~= before + added);
            i = i + 1;
        }
        assert(self.output@.take(self.output@.len() as int) == self.output@);
        out
    }

    /// The texts of every message, in order.
    pub fn text_outputs(&self) -> (r: Vec<&str>)
        ensures
            r@.map_values(|s: &str| s@) == texts_of(all_items(self.output@)),
    {
        texts_exec(&self.items())
    }

    /// Every text, concatenated.
    pub fn output_text(&self) -> (r: String)
        ensures
            r@ == concat(texts_of(all_items(self.output@))),
    {
        let texts = self.text_outputs();
        let ghost tv = texts@.map_values(|s: &str| s@);
        let mut out = String::new();
        let mut i: usize = 0;
        assert(tv.take(0) =~= Seq::<Seq<char>>::empty());
        while i < texts.len()
            invariant
                i <= texts@.len(),
                tv == texts@.map_values(|s: &str| s@),
                out@ == concat(tv.take(i as int)),
            decreases texts@.len() - i,
        {
            assert(tv.take(i + 1).drop_last() == tv.take(i as int));
            assert(tv.take(i + 1).last() == texts@[i as int]@);
            out.append(texts[i]);
            i = i + 1;
        }
        assert(tv.take(tv.len() as int) == tv);
        out
    }

    /// Every text, concatenated, unless there is none.
    pub fn output_text_opt(&self) -> (r: Option<String>)
        ensures
            match r {
                Some(t) => t@ == concat(texts_of(all_items(self.output@))) && t@.len() > 0,
                None => concat(texts_of(all_items(self.output@))).len() == 0,
            },
    {
        let text = self.output_text();
        if text.as_str().is_empty() {
            None
        } else {
            Some(text)
        }
    }

    /// The refusals of every message, in order.
    pub fn refusals(&self) -> (r: Vec<&str>)
        ensures
            r@.map_values(|s: &str| s@) == refusals_of(all_items(self.output@)),
    {
        refusals_exec(&self.items())
    }

    /// The function calls, in order.
    pub fn function_calls(&self) -> (r: Vec<FunctionCallRef<'_>>)
        ensures
            r@.map_values(|c: FunctionCallRef| call_view(c)) == calls_of(all_items(self.output@)),
    {
        calls_exec(&self.items())
    }

    /// Whether some message holds text.
    pub fn has_text_output(&self) -> (r: bool)
        ensures
            r == (texts_of(all_items(self.output@)).len() > 0),
    {
        let texts = self.text_outputs();
        assert(texts@.map_values(|s: &str| s@).len() == texts@.len());
        texts.len() > 0
    }

    /// Whether some message holds a refusal.
    pub fn has_refusals(&self) -> (r: bool)
        ensures
            r == (refusals_of(all_items(self.output@)).len() > 0),
    {
        let refusals = self.refusals();
        assert(refusals@.map_values(|s: &str| s@).len() == refusals@.len());
        refusals.len() > 0
    }

    /// Whether the model called a function.
    pub fn has_function_calls(&self) -> (r: bool)
        ensures
            r == (calls_of(all_items(self.output@)).len() > 0),
    {
        let calls = self.function_calls();
        assert(calls@.map_values(|c: FunctionCallRef| call_view(c)).len() == calls@.len());
        calls.len() > 0
    }

    /// Whether the response completed without error.
    pub fn is_success(&self) -> (r: bool)
        ensures
            r == (self.error is None && self.status@ == "completed"@),
    {
        self.error.is_none() && crate::text::str_eq(self.status.as_str(), "completed")
    }
}


impl Default for ResponseRequest {
    /// The default model and nothing else.
    fn default() -> (r: Self)
        ensures
            r.model@ == DEFAULT_MODEL@,
            r.input is None,
            r.instructions is None,
            r.temperature is None,
            r.top_p is None,
            r.max_output_tokens is None,
            r.reasoning is None,
            r.text is None,
            r.tools is None,
            r.tool_choice is None,
            r.previous_response_id is None,
            r.metadata is None,
            r.store is None,
            r.stream is None,
            r.user is None,
    {
        ResponseRequest {
            model: crate::text::owned(DEFAULT_MODEL),
            input: None,
            instructions: None,
            temperature: None,
            top_p: None,
            max_output_tokens: None,
            reasoning: None,
            text: None,
            tools: None,
            tool_choice: None,
            previous_response_id: None,
            metadata: None,
            store: None,
            stream: None,
            user: None,
        }
    }
}

impl ResponseRequest {
    /// A request for the default model with nothing else set.
    pub fn new() -> (r: Self)
        ensures
            r.model@ == DEFAULT_MODEL@,
            r.input is None,
            r.instructions is None,
            r.temperature is None,
            r.top_p is None,
            r.max_output_tokens is None,
            r.reasoning is None,
            r.text is None,
            r.tools is None,
            r.tool_choice is None,
            r.previous_response_id is None,
            r.metadata is None,
            r.store is None,
            r.stream is None,
            r.user is None,
    {
        Self::default()
    }

    /// Sets the input.
    pub fn input(self, input: ResponseInput) -> (r: Self)
        ensures
            r == (ResponseRequest { input: Some(input), ..self }),
    {
        ResponseRequest { input: Some(input), ..self }
    }

    /// Sets the instructions.
    pub fn instructions(self, instructions: &str) -> (r: Self)
        ensures
            r.instructions matches Some(i) && i@ == instructions@,
            r == (ResponseRequest { instructions: r.instructions, ..self }),
    {
        ResponseRequest { instructions: Some(crate::text::owned(instructions)), ..self }
    }

    /// Caps the tokens the model may produce.
    pub fn max_output_tokens(self, max_output_tokens: u32) -> (r: Self)
        ensures
            r == (ResponseRequest { max_output_tokens: Some(max_output_tokens), ..self }),
    {
        ResponseRequest { max_output_tokens: Some(max_output_tokens), ..self }
    }

    /// Sets the reasoning effort.
    pub fn reasoning(self, effort: ReasoningEffort) -> (r: Self)
        ensures
            r == (ResponseRequest { reasoning: Some(Reasoning { effort }), ..self }),
    {
        ResponseRequest { reasoning: Some(Reasoning::new(effort)), ..self }
    }

    /// Sets the output format.
    pub fn text_format(self, format: TextFormat) -> (r: Self)
        ensures
            r == (ResponseRequest { text: Some(TextConfig { format }), ..self }),
    {
        ResponseRequest { text: Some(TextConfig::new(format)), ..self }
    }

    /// Sets the tools.
    pub fn tools(self, tools: Vec<Tool>) -> (r: Self)
        ensures
            r == (ResponseRequest { tools: Some(tools), ..self }),
    {
        ResponseRequest { tools: Some(tools), ..self }
    }

    /// Fills in the default model when the request names none.
    pub fn with_default_model(self) -> (r: Self)
        ensures
            r.model@ == (if self.model@.len() == 0 { DEFAULT_MODEL@ } else { self.model@ }),
            r == (ResponseRequest { model: r.model, ..self }),
    {
        if self.model.as_str().is_empty() {
            ResponseRequest { model: crate::text::owned(DEFAULT_MODEL), ..self }
        } else {
            self
        }
    }
}

impl ResponseInput {
    /// A bare string input.
    pub fn text(input: &str) -> (r: Self)
        ensures
            r matches ResponseInput::Text(t) && t@ == input@,
    {
        ResponseInput::Text(crate::text::owned(input))
    }

    /// A message list input.
    pub fn messages(messages: Vec<InputMessage>) -> (r: Self)
        ensures
            r == ResponseInput::Messages(messages),
    {
        ResponseInput::Messages(messages)
    }
}

impl From<&str> for ResponseInput {
    fn from(input: &str) -> (r: Self)
        ensures
            r matches ResponseInput::Text(t) && t@ == input@,
    {
        ResponseInput::text(input)
    }
}

/// The conversion is specified by the contract of `from` itself; no spec
/// function stands for it.
impl vstd::std_specs::convert::FromSpecImpl<&str> for ResponseInput {
    open spec fn obeys_from_spec() -> bool {
        false
    }

    open spec fn from_spec(v: &str) -> ResponseInput {
        arbitrary()
    }
}

impl From<String> for ResponseInput {
    fn from(input: String) -> (r: Self)
        ensures
            r == ResponseInput::Text(input),
    {
        ResponseInput::Text(input)
    }
}

impl vstd::std_specs::convert::FromSpecImpl<String> for ResponseInput {
    open spec fn obeys_from_spec() -> bool {
        true
    }

    open spec fn from_spec(v: String) -> ResponseInput {
        ResponseInput::Text(v)
    }
}

impl From<Vec<InputMessage>> for ResponseInput {
    fn from(messages: Vec<InputMessage>) -> (r: Self)
        ensures
            r == ResponseInput::Messages(messages),
    {
        ResponseInput::Messages(messages)
    }
}

impl vstd::std_specs::convert::FromSpecImpl<Vec<InputMessage>> for ResponseInput {
    open spec fn obeys_from_spec() -> bool {
        true
    }

    open spec fn from_spec(v: Vec<InputMessage>) -> ResponseInput {
        ResponseInput::Messages(v)
    }
}

impl InputMessage {
    /// A message with the given parts.
    pub fn new(role: Role, content: Vec<InputContent>) -> (r: Self)
        ensures
            r == (InputMessage { role, content }),
    {
        InputMessage { role, content }
    }

    /// A message holding one text part.
    pub fn text(role: Role, text: &str) -> (r: Self)
        ensures
            r.role == role,
            r.content@.len() == 1,
            r.content@[0] matches InputContent::Text { text: t } && t@ == text@,
    {
        InputMessage::new(role, vec![InputContent::text(text)])
    }
}

impl InputContent {
    /// A text part.
    pub fn text(text: &str) -> (r: Self)
        ensures
            r matches InputContent::Text { text: t } && t@ == text@,
    {
        InputContent::Text { text: crate::text::owned(text) }
    }

    /// An image part, by URL.
    pub fn image(image_url: &str) -> (r: Self)
        ensures
            r matches InputContent::Image { image_url: u } && u@ == image_url@,
    {
        InputContent::Image { image_url: crate::text::owned(image_url) }
    }
}

impl Reasoning {
    /// Reasoning at the given effort.
    pub fn new(effort: ReasoningEffort) -> (r: Self)
        ensures
            r == (Reasoning { effort }),
    {
        Reasoning { effort }
    }
}

impl TextConfig {
    /// An output format setting.
    pub fn new(format: TextFormat) -> (r: Self)
        ensures
            r == (TextConfig { format }),
    {
        TextConfig { format }
    }
}

impl TextFormat {
    /// Free text.
    pub fn text() -> (r: Self)
        ensures
            r == TextFormat::Text,
    {
        TextFormat::Text
    }

    /// Any JSON object.
    pub fn json_object() -> (r: Self)
        ensures
            r == TextFormat::JsonObject,
    {
        TextFormat::JsonObject
    }

    /// JSON matching a schema.
    pub fn json_schema(name: &str, schema: Json, strict: bool) -> (r: Self)
        ensures
            r matches TextFormat::JsonSchema { name: n, schema: s, strict: b } && n@ == name@ && s == schema && b == strict,
    {
        TextFormat::JsonSchema { name: crate::text::owned(name), schema, strict }
    }
}

} // verus!
