//! Every capability the library refuses, and the evidence that the refusal is
//! true.
//!
//! A refusal is a claim: this wire format has nowhere to put this field. Every
//! refusal raised by a dialect names a constant declared here, and the table
//! records how well each claim is known to hold.

use vstd::prelude::*;
use crate::config::{ProviderConfig, ProviderDialect};
use crate::error::ProviderError;

verus! {

/// Builds the refusal error for `capability`, naming the endpoint that raised it.
pub fn unsupported(config: &ProviderConfig, capability: &'static str) -> (r: ProviderError)
    ensures
        r == (ProviderError::UnsupportedCapability { provider: config.name, capability }),
{
    ProviderError::UnsupportedCapability { provider: config.name.clone(), capability }
}

/// Continuing a conversation by id rather than by replaying the transcript.
pub const CONVERSATION_CONTINUATION: &'static str = "server-side conversation continuation";
/// Forcing the model to call a tool, or a particular tool.
pub const TOOL_CHOICE: &'static str = "portable tool choice";
/// Free-form labels or trace ids attached to the request.
pub const REQUEST_METADATA: &'static str = "request metadata";
/// Asking for any valid JSON, with no schema to constrain it.
pub const SCHEMALESS_JSON: &'static str = "schema-less JSON response format";
/// Anything but text in a system or developer turn.
pub const NON_TEXT_SYSTEM: &'static str = "non-text content in system/developer messages";
/// An image attached to a turn that is not the user's.
pub const IMAGES_OUTSIDE_USER: &'static str = "images outside user messages";
/// Reasoning effort at a level this dialect's own scale has no word for.
pub const EFFORT_NONE: &'static str = "reasoning effort 'none'";
/// See `EFFORT_NONE`.
pub const EFFORT_XHIGH: &'static str = "reasoning effort 'xhigh'";
/// See `EFFORT_NONE`.
pub const EFFORT_MAX: &'static str = "reasoning effort 'max'";
/// The lowest portable effort level, which one dialect has no word for.
pub const EFFORT_MINIMAL: &'static str = "reasoning effort 'minimal'";

/// How well a refusal is known to be true.
#[derive(Debug, Clone, Copy, PartialEq, Eq, Structural)]
pub enum Evidence {
    /// The endpoint was asked and said no.
    Probed,
    /// No field exists to put it in, and none could: the API is stateless, or
    /// the concept is absent from its data model.
    Inherent,
    /// Nobody has checked.
    Unverified,
    /// The endpoint was asked and said yes: the refusal is wrong and the code
    /// still carries it.
    Refuted,
}

/// One capability, refused by one dialect.
#[derive(Debug, Clone, Copy, PartialEq, Eq)]
pub struct Refusal {
    /// The dialect that refuses it.
    pub dialect: ProviderDialect,
    /// The constant from this module that names it.
    pub capability: &'static str,
    /// How well the refusal is known to be true.
    pub evidence: Evidence,
    /// What was observed, or why no observation is possible.
    pub note: &'static str,
}

/// Every refusal the four dialects raise, as (dialect, capability, evidence).
pub open spec fn refusal_table() -> Seq<(ProviderDialect, Seq<char>, Evidence)> {
    seq![
        (ProviderDialect::OpenAiResponses, NON_TEXT_SYSTEM@, Evidence::Unverified),
        (ProviderDialect::OpenAiResponses, IMAGES_OUTSIDE_USER@, Evidence::Unverified),
        (ProviderDialect::OpenAiChat, CONVERSATION_CONTINUATION@, Evidence::Inherent),
        (ProviderDialect::OpenAiChat, IMAGES_OUTSIDE_USER@, Evidence::Unverified),
        (ProviderDialect::Gemini, TOOL_CHOICE@, Evidence::Refuted),
        (ProviderDialect::Gemini, REQUEST_METADATA@, Evidence::Probed),
        (ProviderDialect::Gemini, NON_TEXT_SYSTEM@, Evidence::Unverified),
        (ProviderDialect::Gemini, IMAGES_OUTSIDE_USER@, Evidence::Unverified),
        (ProviderDialect::Gemini, EFFORT_NONE@, Evidence::Probed),
        (ProviderDialect::Gemini, EFFORT_XHIGH@, Evidence::Probed),
        (ProviderDialect::Gemini, EFFORT_MAX@, Evidence::Probed),
        (ProviderDialect::Anthropic, CONVERSATION_CONTINUATION@, Evidence::Inherent),
        (ProviderDialect::Anthropic, NON_TEXT_SYSTEM@, Evidence::Unverified),
        (ProviderDialect::Anthropic, IMAGES_OUTSIDE_USER@, Evidence::Unverified),
        (ProviderDialect::Anthropic, SCHEMALESS_JSON@, Evidence::Unverified),
    ]
}

/// Whether `dialect` is recorded as refusing `capability`.
pub open spec fn recorded_refusal(dialect: ProviderDialect, capability: Seq<char>) -> bool {
    exists|i: int| 0 <= i < refusal_table().len()
        && (#[trigger] refusal_table()[i]).0 == dialect && refusal_table()[i].1 == capability
}

/// Every refusal the four dialects raise, with its evidence.
pub fn refusals() -> (r: Vec<Refusal>)
    ensures
        r@.map_values(|x: Refusal| (x.dialect, x.capability@, x.evidence)) == refusal_table(),
        forall|i: int| 0 <= i < r@.len() ==> (#[trigger] r@[i]).note@.len() > 30,
{
    let mut r: Vec<Refusal> = Vec::new();
    r.push(Refusal {
        dialect: ProviderDialect::OpenAiResponses,
        capability: NON_TEXT_SYSTEM,
        evidence: Evidence::Unverified,
        note: "An `instructions` string is what the dialect maps system turns onto, so there is likely nowhere for an image to go. Never sent.",
    });
    r.push(Refusal {
        dialect: ProviderDialect::OpenAiResponses,
        capability: IMAGES_OUTSIDE_USER,
        evidence: Evidence::Unverified,
        note: "Never sent. The content block exists on this dialect; whether the endpoint accepts it on an assistant turn is untested.",
    });
    r.push(Refusal {
        dialect: ProviderDialect::OpenAiChat,
        capability: CONVERSATION_CONTINUATION,
        evidence: Evidence::Inherent,
        note: "Chat Completions is stateless. There is no response id to continue from and no field to carry one.",
    });
    r.push(Refusal {
        dialect: ProviderDialect::OpenAiChat,
        capability: IMAGES_OUTSIDE_USER,
        evidence: Evidence::Unverified,
        note: "Never sent. See the OpenAiResponses row.",
    });
    r.push(Refusal {
        dialect: ProviderDialect::Gemini,
        capability: TOOL_CHOICE,
        evidence: Evidence::Refuted,
        note: "`generation_config.tool_choice` exists and takes 'auto', 'any', and 'none'. Sent loose it answers `Unknown parameter 'tool_choice'`, which is what the refusal was written from; nested it answers `Invalid enum value 'required'`, which is a live field rejecting a value. This refusal must be replaced by a mapping.",
    });
    r.push(Refusal {
        dialect: ProviderDialect::Gemini,
        capability: REQUEST_METADATA,
        evidence: Evidence::Probed,
        note: "`labels` is rejected outright -- \"not available on the Gemini API but it is available on the Gemini Enterprise Agent Platform\" -- and `metadata`, `generation_config.labels`, and `generation_config.metadata` are all `Unknown parameter`.",
    });
    r.push(Refusal {
        dialect: ProviderDialect::Gemini,
        capability: NON_TEXT_SYSTEM,
        evidence: Evidence::Unverified,
        note: "System turns are joined into one `system_instruction` string, so an image has nowhere to go in the shape built here. Whether the API accepts a richer shape is untested.",
    });
    r.push(Refusal {
        dialect: ProviderDialect::Gemini,
        capability: IMAGES_OUTSIDE_USER,
        evidence: Evidence::Unverified,
        note: "Never sent. A `model_output` step takes typed content, so an image may well be accepted there.",
    });
    r.push(Refusal {
        dialect: ProviderDialect::Gemini,
        capability: EFFORT_NONE,
        evidence: Evidence::Probed,
        note: "`'none' is not supported for 'thinking_level'. Supported values: 'minimal', 'low', 'medium', 'high'.`",
    });
    r.push(Refusal {
        dialect: ProviderDialect::Gemini,
        capability: EFFORT_XHIGH,
        evidence: Evidence::Probed,
        note: "Rejected by name, as EFFORT_NONE.",
    });
    r.push(Refusal {
        dialect: ProviderDialect::Gemini,
        capability: EFFORT_MAX,
        evidence: Evidence::Probed,
        note: "Rejected by name, as EFFORT_NONE.",
    });
    r.push(Refusal {
        dialect: ProviderDialect::Anthropic,
        capability: CONVERSATION_CONTINUATION,
        evidence: Evidence::Inherent,
        note: "The Messages API is stateless. Nothing is stored to continue from.",
    });
    r.push(Refusal {
        dialect: ProviderDialect::Anthropic,
        capability: NON_TEXT_SYSTEM,
        evidence: Evidence::Unverified,
        note: "`system` takes an array of blocks on this API, so this may be a limit of the mapping rather than of the format. Never sent.",
    });
    r.push(Refusal {
        dialect: ProviderDialect::Anthropic,
        capability: IMAGES_OUTSIDE_USER,
        evidence: Evidence::Unverified,
        note: "Never sent. Content blocks are uniform across roles on this API, which makes the refusal look more like an assumption than a limit.",
    });
    r.push(Refusal {
        dialect: ProviderDialect::Anthropic,
        capability: SCHEMALESS_JSON,
        evidence: Evidence::Unverified,
        note: "`output_config.format` is believed to require a schema. Never sent without one.",
    });
    proof {
        reveal_strlit("An `instructions` string is what the dialect maps system turns onto, so there is likely nowhere for an image to go. Never sent.");
        reveal_strlit("Never sent. The content block exists on this dialect; whether the endpoint accepts it on an assistant turn is untested.");
        reveal_strlit("Chat Completions is stateless. There is no response id to continue from and no field to carry one.");
        reveal_strlit("Never sent. See the OpenAiResponses row.");
        reveal_strlit("`generation_config.tool_choice` exists and takes 'auto', 'any', and 'none'. Sent loose it answers `Unknown parameter 'tool_choice'`, which is what the refusal was written from; nested it answers `Invalid enum value 'required'`, which is a live field rejecting a value. This refusal must be replaced by a mapping.");
        reveal_strlit("`labels` is rejected outright -- \"not available on the Gemini API but it is available on the Gemini Enterprise Agent Platform\" -- and `metadata`, `generation_config.labels`, and `generation_config.metadata` are all `Unknown parameter`.");
        reveal_strlit("System turns are joined into one `system_instruction` string, so an image has nowhere to go in the shape built here. Whether the API accepts a richer shape is untested.");
        reveal_strlit("Never sent. A `model_output` step takes typed content, so an image may well be accepted there.");
        reveal_strlit("`'none' is not supported for 'thinking_level'. Supported values: 'minimal', 'low', 'medium', 'high'.`");
        reveal_strlit("Rejected by name, as EFFORT_NONE.");
        reveal_strlit("The Messages API is stateless. Nothing is stored to continue from.");
        reveal_strlit("`system` takes an array of blocks on this API, so this may be a limit of the mapping rather than of the format. Never sent.");
        reveal_strlit("Never sent. Content blocks are uniform across roles on this API, which makes the refusal look more like an assumption than a limit.");
        reveal_strlit("`output_config.format` is believed to require a schema. Never sent without one.");
        assert(r@.map_values(|x: Refusal| (x.dialect, x.capability@, x.evidence)) =~= refusal_table());
    }
    r
}

/// No dialect refuses the same capability twice: two rows for one pair would
/// mean two code paths disagree about why, and one of them is stale.
pub proof fn law_no_refusal_is_recorded_twice()
    ensures
        forall|i: int, j: int| 0 <= i < j < refusal_table().len() ==>
            !((#[trigger] refusal_table()[i]).0 == (#[trigger] refusal_table()[j]).0
                && refusal_table()[i].1 == refusal_table()[j].1),
{
    reveal_strlit("server-side conversation continuation");
    reveal_strlit("portable tool choice");
    reveal_strlit("request metadata");
    reveal_strlit("schema-less JSON response format");
    reveal_strlit("non-text content in system/developer messages");
    reveal_strlit("images outside user messages");
    reveal_strlit("reasoning effort 'none'");
    reveal_strlit("reasoning effort 'xhigh'");
    reveal_strlit("reasoning effort 'max'");
    assert forall|i: int, j: int| 0 <= i < j < refusal_table().len() implies
        !((#[trigger] refusal_table()[i]).0 == (#[trigger] refusal_table()[j]).0
            && refusal_table()[i].1 == refusal_table()[j].1) by {
        let t = refusal_table();
        if t[i].0 == t[j].0 && t[i].1 == t[j].1 {
            assert(t[i].1.len() == t[j].1.len());
            assert(false);
        }
    }
}

} // verus!
