//! Streaming: neutral events, and the assembler that turns a dialect's
//! fragments into them.
//!
//! Fragments are never exposed. Tool-call arguments and reasoning blobs are
//! buffered here and surface only once complete, so a caller never
//! reassembles partial JSON.

use vstd::prelude::*;
use crate::error::ProviderError;
use crate::json::{Json, json_canonical, json_opt_view};
use crate::model::{GenerateResponse, OutputContent, PartView, ResponseStatus, StatusView, Usage, part_view, status_view};

verus! {

/// One thing the model produced, as it arrives.
#[derive(Debug, Clone, PartialEq, Eq)]
#[non_exhaustive]
pub enum StreamEvent {
    /// A fragment of generated text, in order.
    TextDelta(String),
    /// The model declined to answer.
    RefusalDelta(String),
    /// A complete tool call. Arguments are fully assembled.
    ToolCall {
        /// Correlation id to quote back in a tool result.
        id: String,
        /// Name of the tool to run.
        name: String,
        /// Arguments, as a raw JSON string.
        arguments: String,
    },
    /// Human-readable reasoning text, when the provider exposes it.
    ReasoningDelta(String),
    /// Opaque provider reasoning state, complete and replayable verbatim.
    Reasoning {
        /// The provider's own representation, as received.
        data: Json,
    },
    /// Terminal event, emitted once before the stream ends.
    Done {
        /// Provider-assigned response id.
        id: String,
        /// The model that served the request.
        model: String,
        /// Why the response ended.
        status: ResponseStatus,
        /// Token accounting, when the provider reports it.
        usage: Option<Usage>,
    },
}

/// What one dialect's frame meant, before neutralization.
///
/// `slot` is whatever integer the dialect uses to correlate parts; the
/// assembler only needs it to be consistent within one stream.
#[derive(Debug, Clone, PartialEq, Eq)]
pub enum RawDelta {
    /// Generated text.
    Text(String),
    /// The end of one text block; the next text starts a new part.
    TextEnd,
    /// The model declined to answer.
    Refusal(String),
    /// A tool call has begun.
    ToolStart { slot: usize, id: String, name: String },
    /// More argument text for a tool call.
    ToolArgs { slot: usize, fragment: String },
    /// Authoritative complete arguments, replacing anything buffered.
    ToolReplace { slot: usize, arguments: String },
    /// A tool call is complete.
    ToolEnd { slot: usize },
    /// Human-readable reasoning.
    ReasoningText(String),
    /// A complete opaque reasoning blob.
    ReasoningBlob(Json),
    /// Response-level metadata. Any field may arrive in any frame.
    Meta {
        id: Option<String>,
        model: Option<String>,
        status: Option<ResponseStatus>,
        usage: Option<Usage>,
        provider_metadata: Option<Json>,
    },
}

/// An event, by the characters it holds.
pub enum EventView {
    TextDelta(Seq<char>),
    RefusalDelta(Seq<char>),
    ToolCall(Seq<char>, Seq<char>, Seq<char>),
    ReasoningDelta(Seq<char>),
    Reasoning(Seq<char>),
    Done(Seq<char>, Seq<char>, StatusView, Option<Usage>),
}

pub open spec fn event_view(e: StreamEvent) -> EventView {
    match e {
        StreamEvent::TextDelta(t) => EventView::TextDelta(t@),
        StreamEvent::RefusalDelta(t) => EventView::RefusalDelta(t@),
        StreamEvent::ToolCall { id, name, arguments } => EventView::ToolCall(id@, name@, arguments@),
        StreamEvent::ReasoningDelta(t) => EventView::ReasoningDelta(t@),
        StreamEvent::Reasoning { data } => EventView::Reasoning(data@),
        StreamEvent::Done { id, model, status, usage } => EventView::Done(id@, model@, status_view(status), usage),
    }
}

pub open spec fn events_view(s: Seq<StreamEvent>) -> Seq<EventView> {
    s.map_values(|e: StreamEvent| event_view(e))
}

/// A delta, by the characters it holds.
pub enum DeltaView {
    Text(Seq<char>),
    TextEnd,
    Refusal(Seq<char>),
    ToolStart(usize, Seq<char>, Seq<char>),
    ToolArgs(usize, Seq<char>),
    ToolReplace(usize, Seq<char>),
    ToolEnd(usize),
    ReasoningText(Seq<char>),
    ReasoningBlob(Seq<char>),
    Meta(Option<Seq<char>>, Option<Seq<char>>, Option<StatusView>, Option<Usage>, Option<Seq<char>>),
}

pub open spec fn opt_view(s: Option<String>) -> Option<Seq<char>> {
    match s {
        Some(t) => Some(t@),
        None => None,
    }
}

pub open spec fn delta_view(d: RawDelta) -> DeltaView {
    match d {
        RawDelta::Text(t) => DeltaView::Text(t@),
        RawDelta::TextEnd => DeltaView::TextEnd,
        RawDelta::Refusal(t) => DeltaView::Refusal(t@),
        RawDelta::ToolStart { slot, id, name } => DeltaView::ToolStart(slot, id@, name@),
        RawDelta::ToolArgs { slot, fragment } => DeltaView::ToolArgs(slot, fragment@),
        RawDelta::ToolReplace { slot, arguments } => DeltaView::ToolReplace(slot, arguments@),
        RawDelta::ToolEnd { slot } => DeltaView::ToolEnd(slot),
        RawDelta::ReasoningText(t) => DeltaView::ReasoningText(t@),
        RawDelta::ReasoningBlob(j) => DeltaView::ReasoningBlob(j@),
        RawDelta::Meta { id, model, status, usage, provider_metadata } =>
            DeltaView::Meta(opt_view(id), opt_view(model), match status { Some(x) => Some(status_view(x)), None => None }, usage, json_opt_view(provider_metadata)),
    }
}

pub open spec fn deltas_view(s: Seq<RawDelta>) -> Seq<DeltaView> {
    s.map_values(|d: RawDelta| delta_view(d))
}

/// Appends one delta.
pub fn push_delta(out: &mut Vec<RawDelta>, d: RawDelta)
    ensures
        deltas_view(final(out)@) == deltas_view(old(out)@).push(delta_view(d)),
{
    out.push(d);
    assert(deltas_view(out@) =~= deltas_view(old(out)@).push(delta_view(d)));
}

/// Where the entry for `k` sits.
pub open spec fn key_at<A>(s: Seq<(usize, A)>, k: usize) -> Option<int>
    decreases s.len(),
{
    if s.len() == 0 {
        None
    } else {
        match key_at(s.drop_last(), k) {
            Some(i) => Some(i),
            None => if s.last().0 == k { Some(s.len() - 1) } else { None },
        }
    }
}

/// The entries with `k` set to `a`.
pub open spec fn put_key<A>(s: Seq<(usize, A)>, k: usize, a: A) -> Seq<(usize, A)> {
    match key_at(s, k) {
        Some(i) => s.update(i, (k, a)),
        None => s.push((k, a)),
    }
}

pub(crate) proof fn lemma_key_prefix<A>(s: Seq<(usize, A)>, k: usize, n: int)
    requires
        0 <= n <= s.len(),
        key_at(s.take(n), k) is Some,
    ensures
        key_at(s, k) == key_at(s.take(n), k),
    decreases s.len() - n,
{
    if n < s.len() {
        assert(s.take(n + 1).drop_last() == s.take(n));
        lemma_key_prefix(s, k, n + 1);
    } else {
        assert(s.take(n) == s);
    }
}

pub(crate) proof fn lemma_key_bounds<A>(s: Seq<(usize, A)>, k: usize)
    ensures
        key_at(s, k) matches Some(i) ==> 0 <= i < s.len() && s[i].0 == k,
    decreases s.len(),
{
    if s.len() > 0 {
        lemma_key_bounds(s.drop_last(), k);
    }
}

/// A tool call being assembled: (id, name, arguments so far).
pub type CallView = (Seq<char>, Seq<char>, Seq<char>);

/// Everything the assembler holds.
pub struct AssemblyView {
    /// Calls in progress, by slot, in increasing slot order.
    pub pending: Seq<(usize, CallView)>,
    /// The parts completed so far.
    pub captured: Seq<PartView>,
    pub id: Seq<char>,
    pub model: Seq<char>,
    pub status: StatusView,
    pub usage: Option<Usage>,
    pub provider_metadata: Option<Seq<char>>,
    /// Whether the stream has closed.
    pub finished: bool,
    /// Whether tool arguments are put in canonical JSON form when complete.
    pub normalize: bool,
    /// Whether the trailing captured part is a text block still being filled.
    pub text_open: bool,
}

/// The index of the call in `slot`, if one is pending.
pub open spec fn slot_index(p: Seq<(usize, CallView)>, slot: usize) -> Option<int>
    decreases p.len(),
{
    if p.len() == 0 {
        None
    } else if p.last().0 == slot {
        Some(p.len() - 1)
    } else {
        slot_index(p.drop_last(), slot)
    }
}

/// Where a call in `slot` belongs in an ordered list of calls.
pub open spec fn lower_bound(p: Seq<(usize, CallView)>, slot: usize) -> int
    decreases p.len(),
{
    if p.len() == 0 || p[0].0 >= slot {
        0
    } else {
        1 + lower_bound(p.skip(1), slot)
    }
}

/// `p` with the call in `slot` set to `c`, started anew if one was there.
pub open spec fn put(p: Seq<(usize, CallView)>, slot: usize, c: CallView) -> Seq<(usize, CallView)> {
    let i = lower_bound(p, slot);
    if i < p.len() && p[i].0 == slot {
        p.update(i, (slot, c))
    } else {
        p.insert(i, (slot, c))
    }
}

/// Slots strictly increase along the list.
pub open spec fn ordered(p: Seq<(usize, CallView)>) -> bool {
    forall|i: int, j: int| 0 <= i < j < p.len() ==> p[i].0 < p[j].0
}

/// The arguments a finished call reports: `{}` for an empty buffer, and the
/// canonical form when the dialect's own parser normalizes.
pub open spec fn final_arguments(args: Seq<char>, normalize: bool) -> Seq<char> {
    let a = if args.len() == 0 { "{}"@ } else { args };
    if normalize {
        match json_canonical(a) {
            Some(c) => c,
            None => a,
        }
    } else {
        a
    }
}

/// The assembler after the call at `i` completes, and the event it emits.
pub open spec fn finish_at(a: AssemblyView, i: int) -> (AssemblyView, Seq<EventView>) {
    let (slot, call) = a.pending[i];
    let args = final_arguments(call.2, a.normalize);
    (
        AssemblyView {
            pending: a.pending.remove(i),
            captured: a.captured.push(PartView::ToolCall(call.0, call.1, args)),
            ..a
        },
        seq![EventView::ToolCall(call.0, call.1, args)],
    )
}

/// The assembler after one delta, and the events it emits.
pub open spec fn absorb_spec(a: AssemblyView, d: DeltaView) -> (AssemblyView, Seq<EventView>) {
    match d {
        DeltaView::Text(t) => (
            AssemblyView {
                captured: if a.text_open && a.captured.len() > 0 && a.captured.last() is Text {
                    a.captured.update(a.captured.len() - 1, PartView::Text(a.captured.last()->Text_0 + t))
                } else {
                    a.captured.push(PartView::Text(t))
                },
                text_open: true,
                ..a
            },
            seq![EventView::TextDelta(t)],
        ),
        DeltaView::TextEnd => (AssemblyView { text_open: false, ..a }, Seq::empty()),
        DeltaView::Refusal(t) => (
            AssemblyView {
                captured: if a.captured.len() > 0 && a.captured.last() is Refusal {
                    a.captured.update(a.captured.len() - 1, PartView::Refusal(a.captured.last()->Refusal_0 + t))
                } else {
                    a.captured.push(PartView::Refusal(t))
                },
                ..a
            },
            seq![EventView::RefusalDelta(t)],
        ),
        DeltaView::ReasoningText(t) => (a, seq![EventView::ReasoningDelta(t)]),
        DeltaView::ReasoningBlob(j) => (
            AssemblyView { captured: a.captured.push(PartView::Reasoning(j)), ..a },
            seq![EventView::Reasoning(j)],
        ),
        DeltaView::Meta(id, model, status, usage, metadata) => (
            AssemblyView {
                id: match id { Some(x) => x, None => a.id },
                model: match model { Some(x) => x, None => a.model },
                status: match status { Some(x) => x, None => a.status },
                usage: match usage { Some(x) => Some(x), None => a.usage },
                provider_metadata: match metadata { Some(x) => Some(x), None => a.provider_metadata },
                ..a
            },
            Seq::empty(),
        ),
        DeltaView::ToolStart(slot, id, name) => (
            AssemblyView { pending: put(a.pending, slot, (id, name, Seq::empty())), ..a },
            Seq::empty(),
        ),
        DeltaView::ToolArgs(slot, fragment) => match slot_index(a.pending, slot) {
            Some(i) => (
                AssemblyView {
                    pending: a.pending.update(i, (slot, (a.pending[i].1.0, a.pending[i].1.1, a.pending[i].1.2 + fragment))),
                    ..a
                },
                Seq::empty(),
            ),
            None => (a, Seq::empty()),
        },
        DeltaView::ToolReplace(slot, arguments) => match slot_index(a.pending, slot) {
            Some(i) => (
                AssemblyView {
                    pending: a.pending.update(i, (slot, (a.pending[i].1.0, a.pending[i].1.1, arguments))),
                    ..a
                },
                Seq::empty(),
            ),
            None => (a, Seq::empty()),
        },
        DeltaView::ToolEnd(slot) => match slot_index(a.pending, slot) {
            Some(i) => finish_at(a, i),
            None => (a, Seq::empty()),
        },
    }
}

/// Flushes every pending call, in slot order, and the events they emit.
pub open spec fn flush_all(a: AssemblyView) -> (AssemblyView, Seq<EventView>)
    decreases a.pending.len(),
{
    if a.pending.len() == 0 {
        (a, Seq::empty())
    } else {
        let (b, first) = finish_at(a, 0);
        let (c, rest) = flush_all(b);
        (c, first + rest)
    }
}

/// The assembler after the body closes, and the events it emits: every
/// pending call, then `Done`.
pub open spec fn close_spec(a: AssemblyView) -> (AssemblyView, Seq<EventView>) {
    let (b, calls) = flush_all(a);
    (
        AssemblyView { finished: true, ..b },
        calls.push(EventView::Done(b.id, b.model, b.status, b.usage)),
    )
}

/// A tool call being assembled from fragments.
struct PendingCall {
    id: String,
    name: String,
    arguments: String,
}

/// Turns one dialect's deltas into neutral events, and keeps the completed
/// parts for the whole response.
pub struct Assembler {
    provider: String,
    pending: Vec<(usize, PendingCall)>,
    captured: Vec<OutputContent>,
    id: String,
    model: String,
    status: ResponseStatus,
    usage: Option<Usage>,
    provider_metadata: Option<Json>,
    finished: bool,
    normalize_arguments: bool,
    text_open: bool,
}

impl Assembler {
    /// What the assembler holds.
    pub closed spec fn view_of(self) -> AssemblyView {
        AssemblyView {
            pending: self.pending@.map_values(|e: (usize, PendingCall)| (e.0, (e.1.id@, e.1.name@, e.1.arguments@))),
            captured: self.captured@.map_values(|o: OutputContent| part_view(o)),
            id: self.id@,
            model: self.model@,
            status: status_view(self.status),
            usage: self.usage,
            provider_metadata: json_opt_view(self.provider_metadata),
            finished: self.finished,
            normalize: self.normalize_arguments,
            text_open: self.text_open,
        }
    }

    /// The endpoint named in the error `into_response` raises.
    pub closed spec fn provider(self) -> Seq<char> {
        self.provider@
    }

    /// Whether pending calls are held in slot order.
    pub open spec fn wf(self) -> bool {
        ordered(self.view_of().pending)
    }

    /// A fresh assembler: nothing captured, status `Incomplete` until a
    /// terminal frame says otherwise.
    pub fn new(provider: &str, normalize_arguments: bool) -> (r: Self)
        ensures
            r.wf(),
            r.provider() == provider@,
            r.view_of() == (AssemblyView {
                pending: Seq::empty(),
                captured: Seq::empty(),
                id: Seq::empty(),
                model: Seq::empty(),
                status: StatusView::Incomplete,
                usage: None,
                provider_metadata: None,
                finished: false,
                normalize: normalize_arguments,
                text_open: false,
            }),
    {
        let r = Assembler {
            provider: crate::text::owned(provider),
            pending: Vec::new(),
            captured: Vec::new(),
            id: String::new(),
            model: String::new(),
            status: ResponseStatus::Incomplete,
            usage: None,
            provider_metadata: None,
            finished: false,
            normalize_arguments,
            text_open: false,
        };
        assert(r.view_of().pending =~= Seq::empty());
        assert(r.view_of().captured =~= Seq::empty());
        r
    }

    /// The index of the pending call in `slot`.
    fn find(&self, slot: usize) -> (r: Option<usize>)
        ensures
            match r {
                Some(i) => slot_index(self.view_of().pending, slot) == Some(i as int),
                None => slot_index(self.view_of().pending, slot) is None,
            },
            r matches Some(i) ==> i < self.view_of().pending.len() && self.view_of().pending[i as int].0 == slot,
    {
        let ghost p = self.view_of().pending;
        proof { lemma_slot_index(p, slot); }
        let mut i = self.pending.len();
        assert(p.take(i as int) == p);
        while i > 0
            invariant
                i <= self.pending@.len(),
                p.len() == self.pending@.len(),
                p == self.view_of().pending,
                slot_index(p.take(i as int), slot) == slot_index(p, slot),
            decreases i,
        {
            assert(p.take(i as int).last() == p[i - 1]);
            assert(p.take(i as int).drop_last() == p.take(i - 1));
            if self.pending[i - 1].0 == slot {
                return Some(i - 1);
            }
            i = i - 1;
        }
        None
    }

    /// Completes the call at `index`, emitting it.
    fn finish_index(&mut self, index: usize, out: &mut Vec<StreamEvent>)
        requires
            index < old(self).view_of().pending.len(),
            old(self).wf(),
        ensures
            final(self).wf(),
            final(self).provider() == old(self).provider(),
            (final(self).view_of(), events_view(final(out)@).skip(old(out)@.len() as int))
                == finish_at(old(self).view_of(), index as int),
            events_view(final(out)@).take(old(out)@.len() as int) == events_view(old(out)@),
            final(out)@.len() == old(out)@.len() + 1,
    {
        let ghost a = self.view_of();
        let ghost before = old(out)@;
        let (slot, call) = self.pending.remove(index);
        let mut arguments = call.arguments;
        if arguments.as_str().is_empty() {
            arguments = crate::text::owned("{}");
        }
        if self.normalize_arguments {
            match Json::parse(arguments.as_str()) {
                Some(value) => arguments = crate::text::owned(value.text()),
                None => {}
            }
        }
        assert(arguments@ == final_arguments(a.pending[index as int].1.2, a.normalize));
        self.captured.push(OutputContent::ToolCall {
            id: call.id.clone(),
            name: call.name.clone(),
            arguments: arguments.clone(),
        });
        out.push(StreamEvent::ToolCall { id: call.id, name: call.name, arguments });
        proof {
            assert(self.view_of().pending =~= a.pending.remove(index as int));
            assert(self.view_of().captured =~= a.captured.push(PartView::ToolCall(a.pending[index as int].1.0, a.pending[index as int].1.1, final_arguments(a.pending[index as int].1.2, a.normalize))));
            assert(events_view(out@).skip(before.len() as int) =~= seq![EventView::ToolCall(a.pending[index as int].1.0, a.pending[index as int].1.1, final_arguments(a.pending[index as int].1.2, a.normalize))]);
            assert(events_view(out@).take(before.len() as int) =~= events_view(before));
            assert forall|i: int, j: int| 0 <= i < j < self.view_of().pending.len() implies
                self.view_of().pending[i].0 < self.view_of().pending[j].0 by {
                let q = a.pending;
                if i < index { if j < index { assert(q[i].0 < q[j].0); } else { assert(q[i].0 < q[j + 1].0); } }
                else { assert(q[i + 1].0 < q[j + 1].0); }
            }
        }
    }
}


/// Appends one event.
fn emit(out: &mut Vec<StreamEvent>, e: StreamEvent)
    ensures
        events_view(final(out)@) == events_view(old(out)@).push(event_view(e)),
        final(out)@.len() == old(out)@.len() + 1,
{
    out.push(e);
    assert(events_view(out@) =~= events_view(old(out)@).push(event_view(e)));
}

proof fn lemma_lower_bound_step(p: Seq<(usize, CallView)>, slot: usize, i: int)
    requires
        0 <= i < p.len(),
        p[i].0 < slot,
    ensures
        i + lower_bound(p.skip(i), slot) == i + 1 + lower_bound(p.skip(i + 1), slot),
{
    assert(p.skip(i)[0] == p[i]);
    assert(p.skip(i).skip(1) == p.skip(i + 1));
}

impl Assembler {
    /// Where a call in `slot` belongs among the pending calls.
    fn position(&self, slot: usize) -> (r: usize)
        requires
            self.wf(),
        ensures
            r as int == lower_bound(self.view_of().pending, slot),
            r <= self.view_of().pending.len(),
            forall|j: int| 0 <= j < r ==> self.view_of().pending[j].0 < slot,
            r < self.view_of().pending.len() ==> self.view_of().pending[r as int].0 >= slot,
    {
        let ghost p = self.view_of().pending;
        let len = self.pending.len();
        let mut i: usize = 0;
        assert(p.skip(0) == p);
        while i < len && self.pending[i].0 < slot
            invariant
                i <= len,
                len == p.len(),
                p == self.view_of().pending,
                lower_bound(p, slot) == i + lower_bound(p.skip(i as int), slot),
                forall|j: int| 0 <= j < i ==> p[j].0 < slot,
            decreases len - i,
        {
            proof { lemma_lower_bound_step(p, slot, i as int); }
            i = i + 1;
        }
        proof {
            if i < len {
                assert(p.skip(i as int)[0] == p[i as int]);
            }
        }
        i
    }

    /// Applies one delta, pushing any resulting events onto `out`.
    pub fn absorb(&mut self, delta: RawDelta, out: &mut Vec<StreamEvent>)
        requires
            old(self).wf(),
        ensures
            final(self).wf(),
            final(self).provider() == old(self).provider(),
            (final(self).view_of(), events_view(final(out)@).skip(old(out)@.len() as int))
                == absorb_spec(old(self).view_of(), delta_view(delta)),
            events_view(final(out)@).take(old(out)@.len() as int) == events_view(old(out)@),
            old(out)@.len() <= final(out)@.len(),
    {
        match delta {
            RawDelta::Text(text) => {
                assert(delta_view(delta) == DeltaView::Text(text@));
                self.absorb_text(text, out);
            }
            RawDelta::TextEnd => {
                self.text_open = false;
                proof { self.quiet(old(out)@); }
            }
            RawDelta::Refusal(text) => self.absorb_refusal(text, out),
            RawDelta::ReasoningText(text) => {
                emit(out, StreamEvent::ReasoningDelta(text));
                assert(events_view(out@).skip(old(out)@.len() as int) =~= seq![EventView::ReasoningDelta(text@)]);
                assert(events_view(out@).take(old(out)@.len() as int) =~= events_view(old(out)@));
            }
            RawDelta::ReasoningBlob(data) => {
                let ghost a = self.view_of();
                self.captured.push(OutputContent::Reasoning { data: data.duplicate() });
                assert(self.view_of().captured =~= a.captured.push(PartView::Reasoning(data@)));
                emit(out, StreamEvent::Reasoning { data });
                assert(events_view(out@).skip(old(out)@.len() as int) =~= seq![EventView::Reasoning(data@)]);
                assert(events_view(out@).take(old(out)@.len() as int) =~= events_view(old(out)@));
            }
            RawDelta::Meta { id, model, status, usage, provider_metadata } => {
                if let Some(id) = id {
                    self.id = id;
                }
                if let Some(model) = model {
                    self.model = model;
                }
                if let Some(status) = status {
                    self.status = status;
                }
                if usage.is_some() {
                    self.usage = usage;
                }
                if provider_metadata.is_some() {
                    self.provider_metadata = provider_metadata;
                }
                proof { self.quiet(old(out)@); }
            }
            RawDelta::ToolStart { slot, id, name } => {
                self.start_call(slot, id, name);
                proof { self.quiet(old(out)@); }
            }
            RawDelta::ToolArgs { slot, fragment } => {
                self.extend_call(slot, fragment);
                proof { self.quiet(old(out)@); }
            }
            RawDelta::ToolReplace { slot, arguments } => {
                self.replace_call(slot, arguments);
                proof { self.quiet(old(out)@); }
            }
            RawDelta::ToolEnd { slot } => {
                match self.find(slot) {
                    Some(i) => {
                        self.finish_index(i, out);
                    }
                    None => {
                        proof { self.quiet(old(out)@); }
                    }
                }
            }
        }
    }

    /// No event was emitted.
    proof fn quiet(&self, before: Seq<StreamEvent>)
        ensures
            events_view(before).skip(before.len() as int) == Seq::<EventView>::empty(),
            events_view(before).take(before.len() as int) == events_view(before),
    {
        assert(events_view(before).skip(before.len() as int) =~= Seq::<EventView>::empty());
        assert(events_view(before).take(before.len() as int) =~= events_view(before));
    }

    fn absorb_text(&mut self, text: String, out: &mut Vec<StreamEvent>)
        requires
            old(self).wf(),
        ensures
            final(self).wf(),
            final(self).provider() == old(self).provider(),
            (final(self).view_of(), events_view(final(out)@).skip(old(out)@.len() as int))
                == absorb_spec(old(self).view_of(), DeltaView::Text(text@)),
            events_view(final(out)@).take(old(out)@.len() as int) == events_view(old(out)@),
            old(out)@.len() <= final(out)@.len(),
    {
        let ghost a = self.view_of();
        let n = self.captured.len();
        if self.text_open && n > 0 && matches!(self.captured[n - 1], OutputContent::Text(_)) {
            let last = self.captured.pop();
            match last {
                Some(OutputContent::Text(existing)) => {
                    let mut joined = existing;
                    joined.append(text.as_str());
                    self.captured.push(OutputContent::Text(joined));
                }
                _ => {}
            }
            assert(self.view_of().captured =~= a.captured.update(a.captured.len() - 1, PartView::Text(a.captured.last()->Text_0 + text@)));
        } else {
            self.captured.push(OutputContent::Text(text.clone()));
            assert(self.view_of().captured =~= a.captured.push(PartView::Text(text@)));
        }
        self.text_open = true;
        emit(out, StreamEvent::TextDelta(text));
        assert(events_view(out@).skip(old(out)@.len() as int) =~= seq![EventView::TextDelta(text@)]);
        assert(events_view(out@).take(old(out)@.len() as int) =~= events_view(old(out)@));
    }

    fn absorb_refusal(&mut self, text: String, out: &mut Vec<StreamEvent>)
        requires
            old(self).wf(),
        ensures
            final(self).wf(),
            final(self).provider() == old(self).provider(),
            (final(self).view_of(), events_view(final(out)@).skip(old(out)@.len() as int))
                == absorb_spec(old(self).view_of(), DeltaView::Refusal(text@)),
            events_view(final(out)@).take(old(out)@.len() as int) == events_view(old(out)@),
            old(out)@.len() <= final(out)@.len(),
    {
        let ghost a = self.view_of();
        let n = self.captured.len();
        if n > 0 && matches!(self.captured[n - 1], OutputContent::Refusal(_)) {
            let last = self.captured.pop();
            match last {
                Some(OutputContent::Refusal(existing)) => {
                    let mut joined = existing;
                    joined.append(text.as_str());
                    self.captured.push(OutputContent::Refusal(joined));
                }
                _ => {}
            }
            assert(self.view_of().captured =~= a.captured.update(a.captured.len() - 1, PartView::Refusal(a.captured.last()->Refusal_0 + text@)));
        } else {
            self.captured.push(OutputContent::Refusal(text.clone()));
            assert(self.view_of().captured =~= a.captured.push(PartView::Refusal(text@)));
        }
        emit(out, StreamEvent::RefusalDelta(text));
        assert(events_view(out@).skip(old(out)@.len() as int) =~= seq![EventView::RefusalDelta(text@)]);
        assert(events_view(out@).take(old(out)@.len() as int) =~= events_view(old(out)@));
    }

    fn start_call(&mut self, slot: usize, id: String, name: String)
        requires
            old(self).wf(),
        ensures
            final(self).wf(),
            final(self).provider() == old(self).provider(),
            final(self).view_of() == absorb_spec(old(self).view_of(), DeltaView::ToolStart(slot, id@, name@)).0,
    {
        let ghost a = self.view_of();
        let i = self.position(slot);
        let call = PendingCall { id, name, arguments: String::new() };
        let ghost c: CallView = (call.id@, call.name@, call.arguments@);
        if i < self.pending.len() && self.pending[i].0 == slot {
            self.pending.remove(i);
            self.pending.insert(i, (slot, call));
            assert(self.view_of().pending =~= a.pending.update(i as int, (slot, c)));
        } else {
            self.pending.insert(i, (slot, call));
            assert(self.view_of().pending =~= a.pending.insert(i as int, (slot, c)));
        }
        proof {
            let q = self.view_of().pending;
            assert forall|x: int, y: int| 0 <= x < y < q.len() implies q[x].0 < q[y].0 by {
                if q.len() == a.pending.len() {
                    if x != i && y != i {
                        assert(a.pending[x].0 < a.pending[y].0);
                    } else if x == i {
                        assert(a.pending[x].0 < a.pending[y].0);
                    }
                } else {
                    if y < i {
                        assert(a.pending[x].0 < a.pending[y].0);
                    } else if y == i {
                    } else if x < i {
                        assert(a.pending[x].0 < slot);
                        assert(a.pending[i as int].0 >= slot);
                        if y - 1 > i { assert(a.pending[i as int].0 < a.pending[y - 1].0); }
                    } else if x == i {
                        if y - 1 > i { assert(a.pending[i as int].0 < a.pending[y - 1].0); }
                    } else {
                        assert(a.pending[x - 1].0 < a.pending[y - 1].0);
                    }
                }
            }
        }
    }

    fn extend_call(&mut self, slot: usize, fragment: String)
        requires
            old(self).wf(),
        ensures
            final(self).wf(),
            final(self).provider() == old(self).provider(),
            final(self).view_of() == absorb_spec(old(self).view_of(), DeltaView::ToolArgs(slot, fragment@)).0,
    {
        let ghost a = self.view_of();
        match self.find(slot) {
            Some(i) => {
                let (s, call) = self.pending.remove(i);
                let mut arguments = call.arguments;
                arguments.append(fragment.as_str());
                self.pending.insert(i, (s, PendingCall { id: call.id, name: call.name, arguments }));
                assert(self.view_of().pending =~= a.pending.update(i as int,
                    (slot, (a.pending[i as int].1.0, a.pending[i as int].1.1, a.pending[i as int].1.2 + fragment@))));
                assert(slot_index(a.pending, slot) == Some(i as int));
                assert(self.view_of() == absorb_spec(a, DeltaView::ToolArgs(slot, fragment@)).0);
                assert(ordered(self.view_of().pending)) by {
                    let q = self.view_of().pending;
                    assert forall|x: int, y: int| 0 <= x < y < q.len() implies q[x].0 < q[y].0 by {
                        assert(a.pending[x].0 < a.pending[y].0);
                    }
                }
            }
            None => {}
        }
    }

    fn replace_call(&mut self, slot: usize, arguments: String)
        requires
            old(self).wf(),
        ensures
            final(self).wf(),
            final(self).provider() == old(self).provider(),
            final(self).view_of() == absorb_spec(old(self).view_of(), DeltaView::ToolReplace(slot, arguments@)).0,
    {
        let ghost a = self.view_of();
        match self.find(slot) {
            Some(i) => {
                let (s, call) = self.pending.remove(i);
                self.pending.insert(i, (s, PendingCall { id: call.id, name: call.name, arguments }));
                assert(self.view_of().pending =~= a.pending.update(i as int,
                    (slot, (a.pending[i as int].1.0, a.pending[i as int].1.1, arguments@))));
                assert(slot_index(a.pending, slot) == Some(i as int));
                assert(self.view_of() == absorb_spec(a, DeltaView::ToolReplace(slot, arguments@)).0);
                assert(ordered(self.view_of().pending)) by {
                    let q = self.view_of().pending;
                    assert forall|x: int, y: int| 0 <= x < y < q.len() implies q[x].0 < q[y].0 by {
                        assert(a.pending[x].0 < a.pending[y].0);
                    }
                }
            }
            None => {}
        }
    }
}

proof fn lemma_split(s: Seq<EventView>, start: int, mid: int)
    requires
        0 <= start <= mid <= s.len(),
    ensures
        s.skip(start) == s.take(mid).skip(start) + s.skip(mid),
{
    assert(s.skip(start) =~= s.take(mid).skip(start) + s.skip(mid));
}

/// What `into_response` says when the stream has not closed yet.
pub const NOT_DRAINED: &'static str = "into_response called before the stream was drained";

/// A copy of a status, field for field.
fn copy_status(s: &ResponseStatus) -> (r: ResponseStatus)
    ensures
        r == *s,
{
    match s {
        ResponseStatus::Completed => ResponseStatus::Completed,
        ResponseStatus::Incomplete => ResponseStatus::Incomplete,
        ResponseStatus::RequiresAction => ResponseStatus::RequiresAction,
        ResponseStatus::Failed => ResponseStatus::Failed,
        ResponseStatus::Other(t) => ResponseStatus::Other(t.clone()),
    }
}

impl Assembler {
    /// Called when the body closes: flushes the calls the dialect never
    /// ended, in slot order, then emits the terminal event.
    pub fn close(&mut self, out: &mut Vec<StreamEvent>)
        requires
            old(self).wf(),
        ensures
            final(self).wf(),
            final(self).provider() == old(self).provider(),
            (final(self).view_of(), events_view(final(out)@).skip(old(out)@.len() as int))
                == close_spec(old(self).view_of()),
            events_view(final(out)@).take(old(out)@.len() as int) == events_view(old(out)@),
    {
        let ghost a = self.view_of();
        let ghost start = old(out)@.len() as int;
        assert(events_view(out@).skip(start) =~= Seq::<EventView>::empty());
        assert(events_view(out@).take(start) =~= events_view(old(out)@));
        while self.pending.len() > 0
            invariant
                self.wf(),
                self.provider() == old(self).provider(),
                0 <= start <= out@.len(),
                events_view(out@).take(start) == events_view(old(out)@),
                flush_all(a) == (flush_all(self.view_of()).0,
                    events_view(out@).skip(start) + flush_all(self.view_of()).1),
            decreases self.pending.len(),
        {
            let ghost b = self.view_of();
            let ghost before = out@;
            self.finish_index(0, out);
            proof {
                let (c, first) = finish_at(b, 0);
                assert(events_view(out@).len() == out@.len());
                lemma_split(events_view(out@), start, before.len() as int);
                assert(events_view(out@).take(before.len() as int).skip(start) == events_view(before).skip(start));
                assert forall|k: int| 0 <= k < start implies events_view(out@).take(start)[k] == events_view(before).take(start)[k] by {
                    assert(events_view(out@).take(before.len() as int)[k] == events_view(before)[k]);
                }
                assert(events_view(out@).take(start) =~= events_view(before).take(start));
            }
        }
        let ghost b = self.view_of();
        let ghost before = out@;
        self.finished = true;
        let done = StreamEvent::Done {
            id: self.id.clone(),
            model: self.model.clone(),
            status: copy_status(&self.status),
            usage: self.usage,
        };
        emit(out, done);
        proof {
            assert(flush_all(b) == (b, Seq::<EventView>::empty()));
            assert(events_view(out@).skip(start) =~= events_view(before).skip(start).push(EventView::Done(b.id, b.model, b.status, b.usage)));
            assert(events_view(out@).take(start) =~= events_view(before).take(start));
            assert(self.view_of().pending =~= b.pending);
            assert(self.view_of().captured =~= b.captured);
        }
    }

    /// The whole response, once the stream has closed.
    pub fn into_response(self) -> (r: Result<GenerateResponse, ProviderError>)
        ensures
            !self.view_of().finished ==> (r matches Err(ProviderError::Stream { provider, message })
                && provider@ == self.provider() && message@ == NOT_DRAINED@),
            self.view_of().finished ==> (r matches Ok(resp)
                && resp.id@ == self.view_of().id
                && resp.model@ == self.view_of().model
                && status_view(resp.status) == self.view_of().status
                && resp.content@.map_values(|o: OutputContent| part_view(o)) == self.view_of().captured
                && resp.usage == self.view_of().usage
                && json_opt_view(resp.provider_metadata) == self.view_of().provider_metadata),
    {
        if !self.finished {
            return Err(ProviderError::Stream {
                provider: self.provider,
                message: crate::text::owned(NOT_DRAINED),
            });
        }
        Ok(GenerateResponse {
            id: self.id,
            model: self.model,
            status: self.status,
            content: self.captured,
            usage: self.usage,
            provider_metadata: self.provider_metadata,
        })
    }
}

proof fn lemma_slot_index(p: Seq<(usize, CallView)>, slot: usize)
    ensures
        slot_index(p, slot) matches Some(i) ==> 0 <= i < p.len() && p[i].0 == slot,
    decreases p.len(),
{
    if p.len() > 0 && p.last().0 != slot {
        lemma_slot_index(p.drop_last(), slot);
    }
}

/// The text of the captured parts, concatenated in order. Refusals are not
/// text.
pub open spec fn captured_text(ps: Seq<PartView>) -> Seq<char>
    decreases ps.len(),
{
    if ps.len() == 0 {
        Seq::empty()
    } else {
        captured_text(ps.drop_last()) + match ps.last() {
            PartView::Text(t) => t,
            _ => Seq::empty(),
        }
    }
}

/// The text a caller was handed in `TextDelta` events, concatenated in order.
pub open spec fn streamed_text(es: Seq<EventView>) -> Seq<char>
    decreases es.len(),
{
    if es.len() == 0 {
        Seq::empty()
    } else {
        streamed_text(es.drop_last()) + match es.last() {
            EventView::TextDelta(t) => t,
            _ => Seq::empty(),
        }
    }
}

proof fn lemma_captured_push(ps: Seq<PartView>, p: PartView)
    ensures
        captured_text(ps.push(p)) == captured_text(ps) + match p {
            PartView::Text(t) => t,
            _ => Seq::empty(),
        },
{
    assert(ps.push(p).drop_last() == ps);
}

proof fn lemma_captured_replace_last(ps: Seq<PartView>, p: PartView)
    requires
        ps.len() > 0,
    ensures
        captured_text(ps.update(ps.len() - 1, p)) == captured_text(ps.drop_last()) + match p {
            PartView::Text(t) => t,
            _ => Seq::empty(),
        },
{
    assert(ps.update(ps.len() - 1, p).drop_last() == ps.drop_last());
}

proof fn lemma_streamed_one(e: EventView)
    ensures
        streamed_text(seq![e]) == match e {
            EventView::TextDelta(t) => t,
            _ => Seq::<char>::empty(),
        },
{
    assert(seq![e].drop_last() == Seq::<EventView>::empty());
    assert(streamed_text(Seq::<EventView>::empty()) == Seq::<char>::empty());
    match e {
        EventView::TextDelta(t) => assert(Seq::<char>::empty() + t == t),
        _ => assert(Seq::<char>::empty() + Seq::<char>::empty() == Seq::<char>::empty()),
    }
}

pub(crate) proof fn lemma_streamed_concat(a: Seq<EventView>, b: Seq<EventView>)
    ensures
        streamed_text(a + b) == streamed_text(a) + streamed_text(b),
    decreases b.len(),
{
    if b.len() == 0 {
        assert(a + b == a);
    } else {
        assert((a + b).drop_last() == a + b.drop_last());
        lemma_streamed_concat(a, b.drop_last());
    }
}

/// Text deltas are separate events but one part per block: whatever one
/// delta adds to the response's text is exactly the text of the events it
/// emits, so joining every `TextDelta` a caller saw spells the text the
/// response holds.
pub proof fn law_a_delta_adds_the_text_it_streams(a: AssemblyView, d: DeltaView)
    ensures
        captured_text(absorb_spec(a, d).0.captured) == captured_text(a.captured) + streamed_text(absorb_spec(a, d).1),
{
    let (b, es) = absorb_spec(a, d);
    match d {
        DeltaView::Text(t) => {
            lemma_streamed_one(EventView::TextDelta(t));
            if a.text_open && a.captured.len() > 0 && a.captured.last() is Text {
                lemma_captured_replace_last(a.captured, PartView::Text(a.captured.last()->Text_0 + t));
                assert(captured_text(a.captured) == captured_text(a.captured.drop_last()) + a.captured.last()->Text_0);
            } else {
                lemma_captured_push(a.captured, PartView::Text(t));
            }
        },
        DeltaView::Refusal(t) => {
            lemma_streamed_one(EventView::RefusalDelta(t));
            if a.captured.len() > 0 && a.captured.last() is Refusal {
                lemma_captured_replace_last(a.captured, PartView::Refusal(a.captured.last()->Refusal_0 + t));
            } else {
                lemma_captured_push(a.captured, PartView::Refusal(t));
            }
        },
        DeltaView::ReasoningText(t) => {
            lemma_streamed_one(EventView::ReasoningDelta(t));
        },
        DeltaView::ReasoningBlob(j) => {
            lemma_streamed_one(EventView::Reasoning(j));
            lemma_captured_push(a.captured, PartView::Reasoning(j));
        },
        DeltaView::ToolEnd(slot) => {
            match slot_index(a.pending, slot) {
                Some(i) => {
                    let (sl, call) = a.pending[i];
                    let args = final_arguments(call.2, a.normalize);
                    lemma_streamed_one(EventView::ToolCall(call.0, call.1, args));
                    lemma_captured_push(a.captured, PartView::ToolCall(call.0, call.1, args));
                },
                None => {},
            }
        },
        _ => {},
    }
}

/// `e` reports the call in progress `c`: its id and its name.
pub open spec fn reports_call(e: EventView, c: (usize, CallView)) -> bool {
    e matches EventView::ToolCall(id, name, _) && id == c.1.0 && name == c.1.1
}

proof fn lemma_flush_adds_no_text(a: AssemblyView)
    ensures
        captured_text(flush_all(a).0.captured) == captured_text(a.captured),
        streamed_text(flush_all(a).1) == Seq::<char>::empty(),
        flush_all(a).0.pending.len() == 0,
        flush_all(a).1.len() == a.pending.len(),
        forall|k: int| 0 <= k < a.pending.len() ==> reports_call(#[trigger] flush_all(a).1[k], a.pending[k]),
        flush_all(a).0.id == a.id && flush_all(a).0.model == a.model && flush_all(a).0.status == a.status
            && flush_all(a).0.usage == a.usage,
    decreases a.pending.len(),
{
    if a.pending.len() > 0 {
        let (b, first) = finish_at(a, 0);
        let (slot, call) = a.pending[0];
        let args = final_arguments(call.2, a.normalize);
        lemma_captured_push(a.captured, PartView::ToolCall(call.0, call.1, args));
        lemma_streamed_one(EventView::ToolCall(call.0, call.1, args));
        lemma_flush_adds_no_text(b);
        let (c, rest) = flush_all(b);
        lemma_streamed_concat(first, rest);
        assert forall|k: int| 0 <= k < a.pending.len() implies reports_call(#[trigger] flush_all(a).1[k], a.pending[k]) by {
            if k > 0 {
                assert(flush_all(a).1[k] == rest[k - 1]);
                assert(b.pending[k - 1] == a.pending[k]);
            }
        }
    }
}

/// Closing the stream flushes every call still in progress, in slot order,
/// before the single `Done` that ends it; nothing is left pending, the
/// response is complete, and no text is added that was not streamed.
pub proof fn law_close_flushes_every_call_before_done(a: AssemblyView)
    ensures
        close_spec(a).0.finished,
        close_spec(a).0.pending.len() == 0,
        close_spec(a).1.len() == a.pending.len() + 1,
        forall|k: int| 0 <= k < a.pending.len() ==> reports_call(#[trigger] close_spec(a).1[k], a.pending[k]),
        close_spec(a).1.last() == EventView::Done(a.id, a.model, a.status, a.usage),
        captured_text(close_spec(a).0.captured) == captured_text(a.captured),
        streamed_text(close_spec(a).1) == Seq::<char>::empty(),
{
    lemma_flush_adds_no_text(a);
    let (b, calls) = flush_all(a);
    lemma_streamed_concat(calls, seq![EventView::Done(b.id, b.model, b.status, b.usage)]);
    lemma_streamed_one(EventView::Done(b.id, b.model, b.status, b.usage));
    assert(calls.push(EventView::Done(b.id, b.model, b.status, b.usage)) == calls + seq![EventView::Done(b.id, b.model, b.status, b.usage)]);
    assert forall|k: int| 0 <= k < a.pending.len() implies reports_call(#[trigger] close_spec(a).1[k], a.pending[k]) by {
        assert(close_spec(a).1[k] == calls[k]);
    }
}

/// The text of a response is the text of its parts: what `output_text`
/// reads from a streamed response is the captured text.
pub proof fn law_output_text_is_the_captured_text(content: Seq<OutputContent>)
    ensures
        crate::model::output_text_of(content) == captured_text(content.map_values(|o: OutputContent| part_view(o))),
    decreases content.len(),
{
    if content.len() > 0 {
        law_output_text_is_the_captured_text(content.drop_last());
        assert(content.map_values(|o: OutputContent| part_view(o)).drop_last()
            == content.drop_last().map_values(|o: OutputContent| part_view(o)));
    }
}

/// Refusal deltas that follow one another make one part: two of them leave
/// the response exactly as one delta carrying both texts would, and emit
/// one `RefusalDelta` each. The same holds of text deltas within a block.
pub proof fn law_consecutive_deltas_make_one_part(a: AssemblyView, t: Seq<char>, u: Seq<char>)
    ensures
        absorb_spec(absorb_spec(a, DeltaView::Refusal(t)).0, DeltaView::Refusal(u)).0
            == absorb_spec(a, DeltaView::Refusal(t + u)).0,
        absorb_spec(a, DeltaView::Refusal(t)).1 + absorb_spec(absorb_spec(a, DeltaView::Refusal(t)).0, DeltaView::Refusal(u)).1
            == seq![EventView::RefusalDelta(t), EventView::RefusalDelta(u)],
        absorb_spec(absorb_spec(a, DeltaView::Text(t)).0, DeltaView::Text(u)).0
            == absorb_spec(a, DeltaView::Text(t + u)).0,
        absorb_spec(a, DeltaView::Refusal(t)).0.captured.len() == a.captured.len()
            || absorb_spec(a, DeltaView::Refusal(t)).0.captured.len() == a.captured.len() + 1,
{
    let b = absorb_spec(a, DeltaView::Refusal(t)).0;
    if a.captured.len() > 0 && a.captured.last() is Refusal {
        assert(a.captured.last()->Refusal_0 + t + u == a.captured.last()->Refusal_0 + (t + u));
    }
    assert(b.captured.last() is Refusal);
    assert(absorb_spec(b, DeltaView::Refusal(u)).0.captured =~= absorb_spec(a, DeltaView::Refusal(t + u)).0.captured);
    let c = absorb_spec(a, DeltaView::Text(t)).0;
    if a.text_open && a.captured.len() > 0 && a.captured.last() is Text {
        assert(a.captured.last()->Text_0 + t + u == a.captured.last()->Text_0 + (t + u));
    }
    assert(absorb_spec(c, DeltaView::Text(u)).0.captured =~= absorb_spec(a, DeltaView::Text(t + u)).0.captured);
    assert(absorb_spec(a, DeltaView::Refusal(t)).1 + absorb_spec(b, DeltaView::Refusal(u)).1
        =~= seq![EventView::RefusalDelta(t), EventView::RefusalDelta(u)]);
}

} // verus!
