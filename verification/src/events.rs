//! The decisions of a live stream: which frame to decode next, what the
//! caller is handed, and when the body has said all it will.
//!
//! Reading bytes off the network is not done here. The caller asks for the
//! next event; when every complete frame has been consumed the answer is
//! that more bytes are needed, and the caller hands them over or reports
//! that the body ended.

use vstd::prelude::*;
use crate::error::ProviderError;
use crate::model::GenerateResponse;
use crate::provider::{DecoderView, StreamDecoder, decoder_step, normalizes};
use crate::sse::{SseBuffer, FrameState, MAX_FRAME_BYTES, first_sep, frame_of, frame_view, sep_len, lemma_first_sep_bounds};
use crate::stream::{
    Assembler, AssemblyView, DeltaView, EventView, RawDelta, StreamEvent, absorb_spec, close_spec,
    deltas_view, event_view, events_view, captured_text, streamed_text, law_a_delta_adds_the_text_it_streams,
    law_close_flushes_every_call_before_done, lemma_streamed_concat,
};

verus! {

/// The most a whole streaming body may carry before the stream is abandoned.
/// A frame bound alone does not stop an endpoint that sends well-formed frames
/// forever.
pub const MAX_STREAM_BYTES: usize = 67108864;

/// Everything a stream holds.
pub struct StreamView {
    /// Bytes received and not yet framed.
    pub pending: Seq<u8>,
    pub decoder: DecoderView,
    pub assembly: AssemblyView,
    /// Events produced and not yet handed out, oldest first.
    pub queued: Seq<EventView>,
    /// Whether the body has ended.
    pub closed: bool,
    /// Body bytes taken so far.
    pub read: nat,
}

/// What the caller is told next.
pub enum Next {
    /// An event, in order.
    Event(StreamEvent),
    /// Every complete frame is consumed: hand over more bytes, or report
    /// that the body ended.
    NeedBytes,
    /// The stream is over.
    End,
}

/// The assembler after a run of deltas, and the events they emit.
pub open spec fn absorb_all(a: AssemblyView, ds: Seq<DeltaView>) -> (AssemblyView, Seq<EventView>)
    decreases ds.len(),
{
    if ds.len() == 0 {
        (a, Seq::empty())
    } else {
        let (a1, e1) = absorb_spec(a, ds[0]);
        let (a2, e2) = absorb_all(a1, ds.drop_first());
        (a2, e1 + e2)
    }
}

pub open spec fn frame_event(f: FrameState) -> Seq<char> {
    match f.event {
        Some(e) => e,
        None => Seq::empty(),
    }
}

/// One complete frame consumed: `None` when there is none; otherwise the
/// stream after decoding and assembling it, or, when the frame was a
/// streamed error, the stream with the frame consumed and the error's
/// message.
pub open spec fn pump(v: StreamView) -> Option<Result<StreamView, (StreamView, Seq<char>)>> {
    match first_sep(v.pending) {
        None => None,
        Some(i) => {
            let frame = frame_of(v.pending.take(i));
            let rest = v.pending.skip(i + sep_len(v.pending, i));
            match decoder_step(v.decoder, frame_event(frame), frame.data) {
                Err(e) => Some(Err((StreamView { pending: rest, ..v }, e))),
                Ok((d, ds)) => {
                    let (a, events) = absorb_all(v.assembly, ds);
                    Some(Ok(StreamView { pending: rest, decoder: d, assembly: a, queued: v.queued + events, ..v }))
                },
            }
        },
    }
}

/// What the caller is told next, as a view.
pub enum NextView {
    Event(EventView),
    NeedBytes,
    End,
    /// A streamed error, with its message.
    Failed(Seq<char>),
}

/// What `next` answers, and the stream after it: a queued event first;
/// nothing once the body has ended and the queue is empty; otherwise frames
/// are decoded until one yields an event or none is left.
pub open spec fn next_spec(v: StreamView) -> (NextView, StreamView)
    decreases v.pending.len(),
{
    if v.queued.len() > 0 {
        (NextView::Event(v.queued[0]), StreamView { queued: v.queued.drop_first(), ..v })
    } else if v.closed {
        (NextView::End, v)
    } else {
        match pump(v) {
            None => (NextView::NeedBytes, v),
            Some(Err((w, m))) => (NextView::Failed(m), w),
            Some(Ok(w)) => {
                proof { lemma_first_sep_bounds(v.pending); }
                next_spec(w)
            },
        }
    }
}

/// The stream after the body ended: every pending call flushed, then `Done`.
pub open spec fn finish_spec(v: StreamView) -> StreamView {
    let (a, events) = close_spec(v.assembly);
    StreamView { assembly: a, queued: v.queued + events, closed: true, ..v }
}

/// The complaint about a body past `MAX_STREAM_BYTES`.
pub const STREAM_TOO_LONG: &'static str = "the stream grew past 67108864 bytes";

/// The complaint about a frame past `MAX_FRAME_BYTES`.
pub const FRAME_TOO_LONG: &'static str = "a single event grew past 16777216 bytes without ending";

/// The decisions of one live stream.
pub struct StreamState {
    provider: String,
    buffer: SseBuffer,
    decoder: StreamDecoder,
    assembler: Assembler,
    queued: Vec<StreamEvent>,
    closed: bool,
    read: usize,
}

impl StreamState {
    pub closed spec fn view_of(self) -> StreamView {
        StreamView {
            pending: self.buffer.pending(),
            decoder: self.decoder.view_of(),
            assembly: self.assembler.view_of(),
            queued: events_view(self.queued@),
            closed: self.closed,
            read: self.read as nat,
        }
    }

    /// The endpoint named in the errors this stream raises.
    pub closed spec fn provider(self) -> Seq<char> {
        self.provider@
    }

    pub closed spec fn wf(self) -> bool {
        &&& self.buffer.wf()
        &&& self.assembler.wf()
        &&& self.assembler.provider() == self.provider@
    }
}


proof fn lemma_events_split(s: Seq<StreamEvent>, n: int)
    requires
        0 <= n <= s.len(),
    ensures
        events_view(s) == events_view(s).take(n) + events_view(s).skip(n),
{
    assert(events_view(s) =~= events_view(s).take(n) + events_view(s).skip(n));
}

impl StreamState {
    /// A stream that has received nothing, decoding with `decoder`.
    pub fn new(provider: &str, decoder: StreamDecoder) -> (r: StreamState)
        ensures
            r.wf(),
            r.provider() == provider@,
            r.view_of() == (StreamView {
                pending: Seq::empty(),
                decoder: decoder.view_of(),
                assembly: AssemblyView {
                    pending: Seq::empty(),
                    captured: Seq::empty(),
                    id: Seq::empty(),
                    model: Seq::empty(),
                    status: crate::model::StatusView::Incomplete,
                    usage: None,
                    provider_metadata: None,
                    finished: false,
                    normalize: normalizes(decoder.view_of()),
                    text_open: false,
                },
                queued: Seq::empty(),
                closed: false,
                read: 0,
            }),
    {
        let normalize = decoder.normalizes_tool_arguments();
        let r = StreamState {
            provider: crate::text::owned(provider),
            buffer: SseBuffer::new(),
            decoder,
            assembler: Assembler::new(provider, normalize),
            queued: Vec::new(),
            closed: false,
            read: 0,
        };
        assert(events_view(r.queued@) =~= Seq::<EventView>::empty());
        r
    }

    /// Decodes one buffered frame, if a complete one is available.
    fn pump_frame(&mut self) -> (r: Result<bool, ProviderError>)
        requires
            old(self).wf(),
            !old(self).view_of().closed,
        ensures
            final(self).wf(),
            final(self).provider() == old(self).provider(),
            match pump(old(self).view_of()) {
                None => r == Ok::<bool, ProviderError>(false) && final(self).view_of() == old(self).view_of(),
                Some(Ok(w)) => r == Ok::<bool, ProviderError>(true) && final(self).view_of() == w,
                Some(Err((w, m))) => r matches Err(ProviderError::Stream { provider, message })
                    && provider@ == old(self).provider() && message@ == m && final(self).view_of() == w,
            },
    {
        let ghost v = self.view_of();
        let frame = match self.buffer.next_frame() {
            Some(f) => f,
            None => {
                return Ok(false);
            }
        };
        let ghost fv = frame_view(frame);
        assert(crate::sse::event_name(frame.event) == frame_event(fv));
        let mut deltas: Vec<RawDelta> = Vec::new();
        match self.decoder.decode(&frame, self.provider.as_str(), &mut deltas) {
            Ok(()) => {}
            Err(e) => {
                return Err(e);
            }
        }
        assert(deltas_view(deltas@) =~= deltas_view(Seq::<RawDelta>::empty()) + deltas_view(deltas@));
        let ghost ds = deltas_view(deltas@);
        let ghost a0 = self.assembler.view_of();
        let ghost q0 = self.queued@;
        assert(deltas_view(Seq::<RawDelta>::empty()) =~= Seq::<DeltaView>::empty());
        let mut events: Vec<StreamEvent> = Vec::new();
        assert(events_view(events@) =~= Seq::<EventView>::empty());
        let ghost pend = self.buffer.pending();
        let ghost dec = self.decoder.view_of();
        let ghost prov = self.provider@;
        while deltas.len() > 0
            invariant
                self.buffer.wf(),
                self.buffer.pending() == pend,
                self.decoder.view_of() == dec,
                self.queued@ == q0,
                self.closed == old(self).closed,
                self.read == old(self).read,
                self.provider@ == prov,
                self.assembler.wf(),
                self.assembler.provider() == self.provider@,
                absorb_all(a0, ds) == (absorb_all(self.assembler.view_of(), deltas_view(deltas@)).0,
                    events_view(events@) + absorb_all(self.assembler.view_of(), deltas_view(deltas@)).1),
            decreases deltas@.len(),
        {
            let ghost before = events@;
            let ghost a = self.assembler.view_of();
            let ghost rest = deltas_view(deltas@);
            let d = deltas.remove(0);
            assert(deltas_view(deltas@) =~= rest.drop_first());
            assert(rest[0] == crate::stream::delta_view(d));
            self.assembler.absorb(d, &mut events);
            proof {
                let (a1, e1) = absorb_spec(a, rest[0]);
                assert(events_view(events@).len() == events@.len());
                lemma_events_split(events@, before.len() as int);
                assert(events_view(events@) == events_view(before) + e1);
            }
        }
        let ghost added = events_view(events@);
        self.queued.append(&mut events);
        assert(events_view(self.queued@) =~= events_view(q0) + added);
        Ok(true)
    }
}


/// What the caller is told, as it is told; a streamed error names the
/// stream's endpoint.
pub open spec fn told(r: Result<Next, ProviderError>, n: NextView, endpoint: Seq<char>) -> bool {
    match n {
        NextView::Event(e) => r matches Ok(Next::Event(x)) && event_view(x) == e,
        NextView::NeedBytes => r matches Ok(Next::NeedBytes),
        NextView::End => r matches Ok(Next::End),
        NextView::Failed(m) => r matches Err(ProviderError::Stream { provider, message }) && provider@ == endpoint && message@ == m,
    }
}

/// The body count after `n` more bytes: it stops at `usize::MAX` rather than
/// wrapping.
pub open spec fn counted(read: nat, n: nat) -> nat {
    if read + n > usize::MAX { usize::MAX as nat } else { read + n }
}

impl StreamState {
    /// What to do next: hand out the oldest queued event; report the end once
    /// the body has ended and the queue is drained; otherwise decode frames
    /// until one yields an event, or ask for more bytes when none is left.
    /// Frames that mean nothing to a caller (keepalives, comments, sentinels)
    /// are consumed without producing an event.
    pub fn next_event(&mut self) -> (r: Result<Next, ProviderError>)
        requires
            old(self).wf(),
        ensures
            final(self).wf(),
            final(self).provider() == old(self).provider(),
            told(r, next_spec(old(self).view_of()).0, old(self).provider()),
            final(self).view_of() == next_spec(old(self).view_of()).1,
    {
        loop
            invariant
                self.wf(),
                self.provider() == old(self).provider(),
                next_spec(self.view_of()) == next_spec(old(self).view_of()),
            decreases self.view_of().pending.len(),
        {
            if self.queued.len() > 0 {
                let ghost v = self.view_of();
                let event = self.queued.remove(0);
                assert(events_view(self.queued@) =~= v.queued.drop_first());
                return Ok(Next::Event(event));
            }
            if self.closed {
                return Ok(Next::End);
            }
            let ghost v = self.view_of();
            proof { lemma_first_sep_bounds(v.pending); }
            match self.pump_frame() {
                Ok(false) => {
                    return Ok(Next::NeedBytes);
                }
                Ok(true) => {}
                Err(e) => {
                    return Err(e);
                }
            }
        }
    }

    /// Takes a chunk of the body. Fails once the body has grown past
    /// `MAX_STREAM_BYTES`, or once one frame has grown past
    /// `MAX_FRAME_BYTES` without ending.
    pub fn take(&mut self, bytes: &[u8]) -> (r: Result<(), ProviderError>)
        requires
            old(self).wf(),
        ensures
            final(self).wf(),
            final(self).provider() == old(self).provider(),
            ({
                let v = old(self).view_of();
                let read = counted(v.read, bytes@.len());
                if read > MAX_STREAM_BYTES {
                    &&& r matches Err(ProviderError::Stream { provider, message })
                        && provider@ == old(self).provider() && message@ == STREAM_TOO_LONG@
                    &&& final(self).view_of() == (StreamView { read, ..v })
                } else {
                    &&& final(self).view_of() == (StreamView { read, pending: v.pending + bytes@, ..v })
                    &&& if v.pending.len() + bytes@.len() > MAX_FRAME_BYTES {
                        r matches Err(ProviderError::Stream { provider, message })
                            && provider@ == old(self).provider() && message@ == FRAME_TOO_LONG@
                    } else {
                        r is Ok
                    }
                }
            }),
    {
        self.read = self.read.saturating_add(bytes.len());
        if self.read > MAX_STREAM_BYTES {
            return Err(ProviderError::Stream {
                provider: self.provider.clone(),
                message: crate::text::owned(STREAM_TOO_LONG),
            });
        }
        self.buffer.push(bytes);
        if self.buffer.overflowed() {
            return Err(ProviderError::Stream {
                provider: self.provider.clone(),
                message: crate::text::owned(FRAME_TOO_LONG),
            });
        }
        Ok(())
    }

    /// The body ended: flushes the calls the dialect never ended and queues
    /// the terminal event.
    pub fn finish(&mut self)
        requires
            old(self).wf(),
        ensures
            final(self).wf(),
            final(self).provider() == old(self).provider(),
            final(self).view_of() == finish_spec(old(self).view_of()),
    {
        let ghost q0 = self.queued@;
        self.closed = true;
        let mut events: Vec<StreamEvent> = Vec::new();
        self.assembler.close(&mut events);
        proof {
            assert(events_view(events@).skip(0) == events_view(events@));
        }
        let ghost added = events_view(events@);
        self.queued.append(&mut events);
        assert(events_view(self.queued@) =~= events_view(q0) + added);
    }

    /// The whole response, once the stream has ended and been drained.
    pub fn into_response(self) -> (r: Result<GenerateResponse, ProviderError>)
        requires
            self.wf(),
        ensures
            !self.view_of().assembly.finished ==> (r matches Err(ProviderError::Stream { provider, message })
                && provider@ == self.provider() && message@ == crate::stream::NOT_DRAINED@),
            self.view_of().assembly.finished ==> (r matches Ok(resp)
                && resp.id@ == self.view_of().assembly.id
                && resp.model@ == self.view_of().assembly.model
                && crate::model::status_view(resp.status) == self.view_of().assembly.status
                && resp.content@.map_values(|o: crate::model::OutputContent| crate::model::part_view(o)) == self.view_of().assembly.captured
                && resp.usage == self.view_of().assembly.usage
                && crate::json::json_opt_view(resp.provider_metadata) == self.view_of().assembly.provider_metadata),
    {
        self.assembler.into_response()
    }
}

/// Every run of deltas a frame carries adds to the response exactly the
/// text of the events it queues: what a caller reads from `TextDelta`
/// events, joined, is the text the drained response holds.
pub proof fn law_a_frame_adds_the_text_it_queues(a: AssemblyView, ds: Seq<DeltaView>)
    ensures
        captured_text(absorb_all(a, ds).0.captured) == captured_text(a.captured) + streamed_text(absorb_all(a, ds).1),
    decreases ds.len(),
{
    if ds.len() > 0 {
        let (a1, e1) = absorb_spec(a, ds[0]);
        law_a_delta_adds_the_text_it_streams(a, ds[0]);
        law_a_frame_adds_the_text_it_queues(a1, ds.drop_first());
        let (a2, e2) = absorb_all(a1, ds.drop_first());
        lemma_streamed_concat(e1, e2);
    }
}

/// Once the body has ended the response is complete, and handing out what
/// is queued never changes it: `into_response` succeeds after `finish`
/// however much of the queue the caller drained, and a drained stream keeps
/// answering that it has ended.
pub proof fn law_a_finished_stream_keeps_its_response(v: StreamView)
    ensures
        finish_spec(v).closed,
        finish_spec(v).assembly.finished,
        v.closed ==> next_spec(v).1.assembly == v.assembly && next_spec(v).1.closed,
        v.closed && v.queued.len() == 0 ==> next_spec(v) == (NextView::End, v),
{
    law_close_flushes_every_call_before_done(v.assembly);
}

} // verus!
