//! One endpoint's dialect, chosen at run time: which body a request becomes,
//! and which decoder reads the stream it opens.

use vstd::prelude::*;
use crate::anthropic;
use crate::config::{ProviderConfig, ProviderDialect};
use crate::error::{ProviderError, error_text, provider_of};
use crate::gemini;
use crate::json::{Json, json_object_from};
use crate::model::{GenerateRequest, ReasoningEffort};
use crate::refusal::{recorded_refusal, refusal_table};
use crate::openai_chat;
use crate::openai_responses;
use crate::sse::{SseFrame, event_name};
use crate::stream::{DeltaView, RawDelta, deltas_view};

verus! {

/// A request body in the endpoint's dialect.
#[derive(Debug, Clone, PartialEq, Eq)]
pub enum WireRequest {
    OpenAiResponses(openai_responses::Request),
    OpenAiChat(openai_chat::Request),
    Gemini(gemini::Request),
    Anthropic(anthropic::Request),
}

/// `r` is what the endpoint's dialect builds from `request`.
pub open spec fn wire_built(config: ProviderConfig, request: GenerateRequest, r: Result<WireRequest, ProviderError>) -> bool {
    match config.dialect {
        ProviderDialect::OpenAiResponses => match r {
            Ok(WireRequest::OpenAiResponses(b)) => openai_responses::built(request, config, Ok(b)),
            Ok(_) => false,
            Err(e) => openai_responses::built(request, config, Err(e)),
        },
        ProviderDialect::OpenAiChat => match r {
            Ok(WireRequest::OpenAiChat(b)) => openai_chat::built(request, config, Ok(b)),
            Ok(_) => false,
            Err(e) => openai_chat::built(request, config, Err(e)),
        },
        ProviderDialect::Gemini => match r {
            Ok(WireRequest::Gemini(b)) => gemini::built(request, config, Ok(b)),
            Ok(_) => false,
            Err(e) => gemini::built(request, config, Err(e)),
        },
        ProviderDialect::Anthropic => match r {
            Ok(WireRequest::Anthropic(b)) => anthropic::built(request, config, Ok(b)),
            Ok(_) => false,
            Err(e) => anthropic::built(request, config, Err(e)),
        },
    }
}

/// The same outcome, with the body dropped.
pub open spec fn same_outcome(w: Result<WireRequest, ProviderError>, r: Result<(), ProviderError>) -> bool {
    match (w, r) {
        (Ok(_), Ok(_)) => true,
        (Err(a), Err(b)) => a == b,
        _ => false,
    }
}

/// Converts a request into the endpoint's dialect.
pub fn wire_request(config: &ProviderConfig, request: &GenerateRequest) -> (r: Result<WireRequest, ProviderError>)
    ensures
        wire_built(*config, *request, r),
{
    match config.dialect {
        ProviderDialect::OpenAiResponses => match openai_responses::Request::build(request, config) {
            Ok(b) => Ok(WireRequest::OpenAiResponses(b)),
            Err(e) => Err(e),
        },
        ProviderDialect::OpenAiChat => match openai_chat::Request::build(request, config) {
            Ok(b) => Ok(WireRequest::OpenAiChat(b)),
            Err(e) => Err(e),
        },
        ProviderDialect::Gemini => match gemini::Request::build(request, config) {
            Ok(b) => Ok(WireRequest::Gemini(b)),
            Err(e) => Err(e),
        },
        ProviderDialect::Anthropic => match anthropic::Request::build(request, config) {
            Ok(b) => Ok(WireRequest::Anthropic(b)),
            Err(e) => Err(e),
        },
    }
}

/// Decides whether the endpoint's dialect can carry a request, without
/// sending it: the same conversion `generate` and `stream` run, with the
/// body dropped. `Ok` says every field has somewhere to go in the wire
/// format; it is no promise the endpoint will accept the request.
pub fn check(config: &ProviderConfig, request: &GenerateRequest) -> (r: Result<(), ProviderError>)
    ensures
        exists|w: Result<WireRequest, ProviderError>| wire_built(*config, *request, w) && same_outcome(w, r),
{
    let w = wire_request(config, request);
    let ghost wv = w;
    let r = match w {
        Ok(_) => Ok(()),
        Err(e) => Err(e),
    };
    assert(wire_built(*config, *request, wv) && same_outcome(wv, r));
    r
}


/// What a stream decoder remembers, whatever its dialect.
pub enum DecoderView {
    Responses,
    Chat,
    Gemini(Seq<(usize, gemini::StepView)>),
    Anthropic(anthropic::AnthState),
}

/// A decoder that has seen nothing, for a dialect.
pub open spec fn fresh_decoder(d: ProviderDialect) -> DecoderView {
    match d {
        ProviderDialect::OpenAiResponses => DecoderView::Responses,
        ProviderDialect::OpenAiChat => DecoderView::Chat,
        ProviderDialect::Gemini => DecoderView::Gemini(Seq::empty()),
        ProviderDialect::Anthropic => DecoderView::Anthropic(anthropic::fresh_state()),
    }
}

/// What one frame does to a decoder: its next state and the deltas the frame
/// means, or the message of a streamed error.
pub open spec fn decoder_step(d: DecoderView, event: Seq<char>, data: Seq<char>)
    -> Result<(DecoderView, Seq<DeltaView>), Seq<char>>
{
    match d {
        DecoderView::Responses => match openai_responses::responses_deltas(event, data) {
            Ok(ds) => Ok((DecoderView::Responses, ds)),
            Err(m) => Err(m),
        },
        DecoderView::Chat => Ok((DecoderView::Chat, openai_chat::chat_deltas(data))),
        DecoderView::Gemini(st) => {
            let (next, ds) = gemini::gemini_step(st, data);
            Ok((DecoderView::Gemini(next), ds))
        },
        DecoderView::Anthropic(st) => match anthropic::anthropic_step(st, event, data) {
            Ok((next, ds)) => Ok((DecoderView::Anthropic(next), ds)),
            Err(m) => Err(m),
        },
    }
}

/// Whether a decoder's dialect re-serializes tool arguments when it parses
/// a whole response, so that streamed arguments must be put in the same
/// canonical form.
pub open spec fn normalizes(d: DecoderView) -> bool {
    d is Gemini || d is Anthropic
}

/// The decoder for one dialect's stream.
pub enum StreamDecoder {
    OpenAiResponses(openai_responses::Decoder),
    OpenAiChat(openai_chat::Decoder),
    Gemini(gemini::Decoder),
    Anthropic(anthropic::Decoder),
}

impl StreamDecoder {
    /// What the decoder remembers.
    pub closed spec fn view_of(self) -> DecoderView {
        match self {
            StreamDecoder::OpenAiResponses(_) => DecoderView::Responses,
            StreamDecoder::OpenAiChat(_) => DecoderView::Chat,
            StreamDecoder::Gemini(d) => DecoderView::Gemini(d.state()),
            StreamDecoder::Anthropic(d) => DecoderView::Anthropic(d.state()),
        }
    }

    /// A fresh decoder for a dialect.
    pub fn new(dialect: ProviderDialect) -> (r: StreamDecoder)
        ensures
            r.view_of() == fresh_decoder(dialect),
    {
        match dialect {
            ProviderDialect::OpenAiResponses => StreamDecoder::OpenAiResponses(openai_responses::Decoder),
            ProviderDialect::OpenAiChat => StreamDecoder::OpenAiChat(openai_chat::Decoder),
            ProviderDialect::Gemini => StreamDecoder::Gemini(gemini::Decoder::new()),
            ProviderDialect::Anthropic => StreamDecoder::Anthropic(anthropic::Decoder::new()),
        }
    }

    /// Whether streamed tool arguments are put in canonical form.
    pub fn normalizes_tool_arguments(&self) -> (r: bool)
        ensures
            r == normalizes(self.view_of()),
    {
        match self {
            StreamDecoder::OpenAiResponses(_) | StreamDecoder::OpenAiChat(_) => false,
            StreamDecoder::Gemini(d) => d.normalizes_tool_arguments(),
            StreamDecoder::Anthropic(d) => d.normalizes_tool_arguments(),
        }
    }

    /// Appends everything one frame means to `out`. A streamed error names
    /// `endpoint`, the endpoint's configured name.
    pub fn decode(&mut self, frame: &SseFrame, endpoint: &str, out: &mut Vec<RawDelta>) -> (r: Result<(), ProviderError>)
        ensures
            match decoder_step(old(self).view_of(), event_name(frame.event), frame.data@) {
                Ok((next, ds)) => r is Ok && final(self).view_of() == next
                    && deltas_view(final(out)@) == deltas_view(old(out)@) + ds,
                Err(message) => (r matches Err(ProviderError::Stream { provider: p, message: m })
                    && p@ == endpoint@ && m@ == message) && final(self).view_of() == old(self).view_of(),
            },
    {
        match self {
            StreamDecoder::OpenAiResponses(d) => d.decode(frame, endpoint, out),
            StreamDecoder::OpenAiChat(d) => d.decode(frame, endpoint, out),
            StreamDecoder::Gemini(d) => d.decode(frame, endpoint, out),
            StreamDecoder::Anthropic(d) => d.decode(frame, endpoint, out),
        }
    }
}

/// `r` is the streaming body and decoder for `request` on `config`: the
/// dialect's body with its streaming fields set, and a fresh decoder.
pub open spec fn stream_built(config: ProviderConfig, request: GenerateRequest, r: Result<(WireRequest, StreamDecoder), ProviderError>) -> bool {
    match r {
        Err(e) => wire_built(config, request, Err(e)),
        Ok((w, d)) => d.view_of() == fresh_decoder(config.dialect) && match w {
            WireRequest::OpenAiResponses(b) => b.stream == Some(true)
                && wire_built(config, request, Ok(WireRequest::OpenAiResponses(openai_responses::Request { stream: None, ..b }))),
            WireRequest::OpenAiChat(b) => b.stream == Some(true)
                && (b.stream_options matches Some(o) && o@ == json_object_from(seq![("include_usage"@, "true"@)]))
                && wire_built(config, request, Ok(WireRequest::OpenAiChat(openai_chat::Request { stream: None, stream_options: None, ..b }))),
            WireRequest::Gemini(b) => b.stream == Some(true)
                && wire_built(config, request, Ok(WireRequest::Gemini(gemini::Request { stream: None, ..b }))),
            WireRequest::Anthropic(b) => b.stream == Some(true)
                && wire_built(config, request, Ok(WireRequest::Anthropic(anthropic::Request { stream: None, ..b }))),
        },
    }
}

/// The streaming body for a request, and the decoder for the stream it opens.
pub fn stream_request(config: &ProviderConfig, request: &GenerateRequest) -> (r: Result<(WireRequest, StreamDecoder), ProviderError>)
    ensures
        stream_built(*config, *request, r),
{
    let decoder = StreamDecoder::new(config.dialect);
    match wire_request(config, request) {
        Err(e) => Err(e),
        Ok(WireRequest::OpenAiResponses(b)) => Ok((WireRequest::OpenAiResponses(b.streaming()), decoder)),
        Ok(WireRequest::OpenAiChat(b)) => Ok((WireRequest::OpenAiChat(b.streaming()), decoder)),
        Ok(WireRequest::Gemini(b)) => Ok((WireRequest::Gemini(b.streaming()), decoder)),
        Ok(WireRequest::Anthropic(b)) => Ok((WireRequest::Anthropic(b.streaming()), decoder)),
    }
}

/// Two outcomes agree: both succeed, or both fail with errors that read the
/// same.
pub open spec fn agree<A, B>(a: Result<A, ProviderError>, b: Result<B, ProviderError>) -> bool {
    match (a, b) {
        (Ok(_), Ok(_)) => true,
        (Err(x), Err(y)) => error_text(x) == error_text(y),
        _ => false,
    }
}

/// Whatever a dialect builds from one request, it builds the same outcome.
proof fn lemma_wire_built_agrees(
    config: ProviderConfig,
    request: GenerateRequest,
    a: Result<WireRequest, ProviderError>,
    b: Result<WireRequest, ProviderError>,
)
    requires
        wire_built(config, request, a),
        wire_built(config, request, b),
    ensures
        agree(a, b),
{
}

/// `check` stands in for the conversion a streaming request runs: on any
/// request it succeeds exactly when the streaming conversion succeeds, and
/// otherwise fails with an error that reads the same, so the two cannot
/// drift apart.
pub proof fn law_check_agrees_with_stream(
    config: ProviderConfig,
    request: GenerateRequest,
    checked: Result<(), ProviderError>,
    streamed: Result<(WireRequest, StreamDecoder), ProviderError>,
)
    requires
        exists|w: Result<WireRequest, ProviderError>| wire_built(config, request, w) && same_outcome(w, checked),
        stream_built(config, request, streamed),
    ensures
        agree(checked, streamed),
{
    let w = choose|w: Result<WireRequest, ProviderError>| wire_built(config, request, w) && same_outcome(w, checked);
    let s: Result<WireRequest, ProviderError> = match streamed {
        Err(e) => Err(e),
        Ok((WireRequest::OpenAiResponses(b), _)) => Ok(WireRequest::OpenAiResponses(openai_responses::Request { stream: None, ..b })),
        Ok((WireRequest::OpenAiChat(b), _)) => Ok(WireRequest::OpenAiChat(openai_chat::Request { stream: None, stream_options: None, ..b })),
        Ok((WireRequest::Gemini(b), _)) => Ok(WireRequest::Gemini(gemini::Request { stream: None, ..b })),
        Ok((WireRequest::Anthropic(b), _)) => Ok(WireRequest::Anthropic(anthropic::Request { stream: None, ..b })),
    };
    assert(wire_built(config, request, s));
    lemma_wire_built_agrees(config, request, w, s);
}

/// `check` stands in for the conversion `generate` runs: it succeeds exactly
/// when the body builds, and otherwise fails with an error that reads the
/// same.
pub proof fn law_check_agrees_with_generate(
    config: ProviderConfig,
    request: GenerateRequest,
    checked: Result<(), ProviderError>,
    generated: Result<WireRequest, ProviderError>,
)
    requires
        exists|w: Result<WireRequest, ProviderError>| wire_built(config, request, w) && same_outcome(w, checked),
        wire_built(config, request, generated),
    ensures
        agree(checked, generated),
{
    let w = choose|w: Result<WireRequest, ProviderError>| wire_built(config, request, w) && same_outcome(w, checked);
    lemma_wire_built_agrees(config, request, w, generated);
}

/// Every capability a dialect refuses is one the refusal table records
/// against that dialect. The one refusal that names no row is the lowest
/// effort level on Anthropic, which is left out here.
pub proof fn law_refusals_are_recorded(
    config: ProviderConfig,
    request: GenerateRequest,
    w: Result<WireRequest, ProviderError>,
    capability: &'static str,
)
    requires
        wire_built(config, request, w),
        w matches Err(ProviderError::UnsupportedCapability { capability: c, .. }) && c == capability,
        !(config.dialect == ProviderDialect::Anthropic && request.previous_response_id is None
            && anthropic::transcript(request.messages@) is Ok
            && request.reasoning_effort == Some(ReasoningEffort::Minimal)),
    ensures
        recorded_refusal(config.dialect, capability@),
{
    let t = refusal_table();
    assert(t[0] == (ProviderDialect::OpenAiResponses, crate::refusal::NON_TEXT_SYSTEM@, crate::refusal::Evidence::Unverified));
    assert(t[1] == (ProviderDialect::OpenAiResponses, crate::refusal::IMAGES_OUTSIDE_USER@, crate::refusal::Evidence::Unverified));
    assert(t[2] == (ProviderDialect::OpenAiChat, crate::refusal::CONVERSATION_CONTINUATION@, crate::refusal::Evidence::Inherent));
    assert(t[3] == (ProviderDialect::OpenAiChat, crate::refusal::IMAGES_OUTSIDE_USER@, crate::refusal::Evidence::Unverified));
    assert(t[4] == (ProviderDialect::Gemini, crate::refusal::TOOL_CHOICE@, crate::refusal::Evidence::Refuted));
    assert(t[5] == (ProviderDialect::Gemini, crate::refusal::REQUEST_METADATA@, crate::refusal::Evidence::Probed));
    assert(t[6] == (ProviderDialect::Gemini, crate::refusal::NON_TEXT_SYSTEM@, crate::refusal::Evidence::Unverified));
    assert(t[7] == (ProviderDialect::Gemini, crate::refusal::IMAGES_OUTSIDE_USER@, crate::refusal::Evidence::Unverified));
    assert(t[8] == (ProviderDialect::Gemini, crate::refusal::EFFORT_NONE@, crate::refusal::Evidence::Probed));
    assert(t[9] == (ProviderDialect::Gemini, crate::refusal::EFFORT_XHIGH@, crate::refusal::Evidence::Probed));
    assert(t[10] == (ProviderDialect::Gemini, crate::refusal::EFFORT_MAX@, crate::refusal::Evidence::Probed));
    assert(t[11] == (ProviderDialect::Anthropic, crate::refusal::CONVERSATION_CONTINUATION@, crate::refusal::Evidence::Inherent));
    assert(t[12] == (ProviderDialect::Anthropic, crate::refusal::NON_TEXT_SYSTEM@, crate::refusal::Evidence::Unverified));
    assert(t[13] == (ProviderDialect::Anthropic, crate::refusal::IMAGES_OUTSIDE_USER@, crate::refusal::Evidence::Unverified));
    assert(t[14] == (ProviderDialect::Anthropic, crate::refusal::SCHEMALESS_JSON@, crate::refusal::Evidence::Unverified));
}

/// Every error a conversion raises names the endpoint it was raised for, by
/// its configured name: a refusal from a compatible gateway reports that
/// gateway, not the vendor whose dialect it speaks.
pub proof fn law_conversion_errors_name_the_endpoint(
    config: ProviderConfig,
    request: GenerateRequest,
    error: ProviderError,
)
    requires
        wire_built(config, request, Err(error)),
    ensures
        provider_of(error) == config.name,
{
}

} // verus!
