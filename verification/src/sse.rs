//! Server-sent event framing, shared by every streaming dialect.
//!
//! Bytes are held as bytes rather than text, because a chunk boundary can land
//! in the middle of a multi-byte character. Text is only interpreted once a
//! whole frame is in hand.

use vstd::prelude::*;

verus! {

/// The text `bytes` decode to when every ill-formed UTF-8 sequence is replaced
/// by U+FFFD.
pub uninterp spec fn utf8_lossy(bytes: Seq<u8>) -> Seq<char>;

/// Decodes `bytes` with `String::from_utf8_lossy`; the contract claims the
/// result is what `utf8_lossy` names for those bytes.
#[verifier::external_body]
pub(crate) fn decode_lossy(bytes: &[u8]) -> (r: String)
    ensures
        r@ == utf8_lossy(bytes@),
{
    String::from_utf8_lossy(bytes).into_owned()
}

/// One decoded server-sent event.
#[derive(Debug, Clone, PartialEq, Eq)]
pub struct SseFrame {
    /// The `event:` name, when the frame carried one.
    pub event: Option<String>,
    /// The `data:` payload, with several `data:` lines joined by newlines.
    pub data: String,
}

/// The most one frame may buffer before the stream is abandoned.
///
/// An endpoint that never emits a separator would otherwise grow the buffer
/// until the process dies; the read timeout bounds silence, not volume.
pub const MAX_FRAME_BYTES: usize = 16 * 1024 * 1024;

/// The longest separator, less one: how far back a resumed scan must reach to
/// catch a separator straddling the previous chunk boundary.
const SEPARATOR_OVERLAP: usize = 3;

/// Whether `\r\n\r\n` starts at `i`.
pub open spec fn crlf_sep_at(b: Seq<u8>, i: int) -> bool {
    0 <= i && i + 4 <= b.len() && b[i] == 13u8 && b[i + 1] == 10u8 && b[i + 2] == 13u8 && b[i + 3] == 10u8
}

/// Whether `\n\n` starts at `i`.
pub open spec fn lf_sep_at(b: Seq<u8>, i: int) -> bool {
    0 <= i && i + 2 <= b.len() && b[i] == 10u8 && b[i + 1] == 10u8
}

/// Whether a blank line ending a frame starts at `i`.
pub open spec fn sep_at(b: Seq<u8>, i: int) -> bool {
    crlf_sep_at(b, i) || lf_sep_at(b, i)
}

/// The length of the separator starting at `i`; the CRLF form wins.
pub open spec fn sep_len(b: Seq<u8>, i: int) -> int {
    if crlf_sep_at(b, i) { 4 } else { 2 }
}

/// The first separator at or after `i`.
pub open spec fn sep_search(b: Seq<u8>, i: int) -> Option<int>
    decreases b.len() - i,
{
    if i < 0 || i >= b.len() {
        None
    } else if sep_at(b, i) {
        Some(i)
    } else {
        sep_search(b, i + 1)
    }
}

/// The first separator in `b`.
pub open spec fn first_sep(b: Seq<u8>) -> Option<int> {
    sep_search(b, 0)
}

/// A frame found first ends inside the buffer.
pub proof fn lemma_first_sep_bounds(b: Seq<u8>)
    ensures
        first_sep(b) matches Some(i) ==> 0 <= i && i + sep_len(b, i) <= b.len() && sep_len(b, i) > 0,
{
    lemma_sep_search_found(b, 0);
}

proof fn lemma_sep_search_skips(b: Seq<u8>, from: int, i: int)
    requires
        0 <= from <= i,
        forall|j: int| from <= j < i ==> !sep_at(b, j),
    ensures
        sep_search(b, from) == sep_search(b, i),
    decreases i - from,
{
    if from < i {
        lemma_sep_search_skips(b, from + 1, i);
    }
}

proof fn lemma_sep_search_found(b: Seq<u8>, from: int)
    requires
        0 <= from,
    ensures
        sep_search(b, from) matches Some(i) ==> from <= i < b.len() && sep_at(b, i)
            && forall|j: int| from <= j < i ==> !sep_at(b, j),
        sep_search(b, from) is None ==> forall|j: int| from <= j < b.len() ==> !sep_at(b, j),
    decreases b.len() - from,
{
    if from < b.len() && !sep_at(b, from) {
        lemma_sep_search_found(b, from + 1);
    }
}

/// Bytes that arrive after a complete frame never change it: the frame the
/// buffer would yield now, and where the next one starts, are what it yields
/// after any more bytes, so how the body was split into chunks does not
/// matter.
pub proof fn law_more_bytes_never_change_a_complete_frame(p: Seq<u8>, c: Seq<u8>)
    requires
        first_sep(p) is Some,
    ensures
        first_sep(p + c) == first_sep(p),
        sep_len(p + c, first_sep(p)->0) == sep_len(p, first_sep(p)->0),
        (p + c).take(first_sep(p)->0) == p.take(first_sep(p)->0),
{
    lemma_sep_search_found(p, 0);
    let i = first_sep(p)->0;
    let b = p + c;
    assert(sep_at(b, i));
    assert forall|j: int| 0 <= j < i implies !sep_at(b, j) by {
        assert(!sep_at(p, j));
        if lf_sep_at(b, j) {
            assert(lf_sep_at(p, j));
        }
        if crlf_sep_at(b, j) {
            if j + 4 <= p.len() {
                assert(crlf_sep_at(p, j));
            } else {
                assert(j == i - 1);
                assert(b[i] == 10u8 && b[i + 1] == 13u8);
            }
        }
    }
    lemma_sep_search_skips(b, 0, i);
    assert(b.take(i) =~= p.take(i));
}

/// Finds the blank line ending a frame, searching from `from`.
///
/// Returns the offset where the frame's text ends and the offset where the
/// next frame begins, which differ by the length of the separator.
pub fn separator(bytes: &[u8], from: usize) -> (r: Option<(usize, usize)>)
    ensures
        match sep_search(bytes@, from as int) {
            Some(i) => r == Some((i as usize, (i + sep_len(bytes@, i)) as usize)),
            None => r is None,
        },
{
    let len = bytes.len();
    let mut index = from;
    while index < len && len - index >= 2
        invariant
            len == bytes@.len(),
            from <= index,
            sep_search(bytes@, from as int) == sep_search(bytes@, index as int),
        decreases len - index,
    {
        if len - index >= 4 && bytes[index] == 13 && bytes[index + 1] == 10 && bytes[index + 2] == 13
            && bytes[index + 3] == 10 {
            return Some((index, index + 4));
        }
        if bytes[index] == 10 && bytes[index + 1] == 10 {
            return Some((index, index + 2));
        }
        proof {
            lemma_sep_search_skips(bytes@, index as int, index + 1);
        }
        index = index + 1;
    }
    proof {
        if index < len {
            assert(!sep_at(bytes@, index as int));
            lemma_sep_search_skips(bytes@, index as int, index + 1);
        }
        assert(sep_search(bytes@, index + 1) is None || index >= len);
    }
    None
}

/// Whether `line` begins with `prefix`.
pub open spec fn has_prefix(line: Seq<char>, prefix: Seq<char>) -> bool {
    prefix.len() <= line.len() && line.take(prefix.len() as int) == prefix
}

/// Unicode white space, as `char::is_whitespace` defines it.
pub open spec fn is_space(c: char) -> bool {
    let u = c as u32;
    ||| 9 <= u <= 13
    ||| u == 32
    ||| u == 0x85
    ||| u == 0xA0
    ||| u == 0x1680
    ||| 0x2000 <= u <= 0x200A
    ||| u == 0x2028
    ||| u == 0x2029
    ||| u == 0x202F
    ||| u == 0x205F
    ||| u == 0x3000
}

fn space(c: char) -> (r: bool)
    ensures
        r == is_space(c),
{
    let u = c as u32;
    (9 <= u && u <= 13) || u == 32 || u == 0x85 || u == 0xA0 || u == 0x1680 || (0x2000 <= u && u <= 0x200A)
        || u == 0x2028 || u == 0x2029 || u == 0x202F || u == 0x205F || u == 0x3000
}

/// `s` without leading white space.
pub open spec fn trim_start(s: Seq<char>) -> Seq<char>
    decreases s.len(),
{
    if s.len() > 0 && is_space(s[0]) {
        trim_start(s.skip(1))
    } else {
        s
    }
}

/// `s` without trailing white space.
pub open spec fn trim_end_space(s: Seq<char>) -> Seq<char>
    decreases s.len(),
{
    if s.len() > 0 && is_space(s.last()) {
        trim_end_space(s.drop_last())
    } else {
        s
    }
}

/// `s` without leading or trailing white space, as `str::trim` gives it.
pub open spec fn trim(s: Seq<char>) -> Seq<char> {
    trim_end_space(trim_start(s))
}

/// `chars[start..end]` trimmed.
fn trimmed(chars: &Vec<char>, start: usize) -> (r: String)
    requires
        start <= chars@.len(),
    ensures
        r@ == trim(chars@.skip(start as int)),
{
    let len = chars.len();
    let mut a = start;
    while a < len && space(chars[a])
        invariant
            start <= a <= len,
            len == chars@.len(),
            trim_start(chars@.skip(a as int)) == trim_start(chars@.skip(start as int)),
        decreases len - a,
    {
        assert(chars@.skip(a as int).skip(1) == chars@.skip(a + 1));
        a = a + 1;
    }
    let mut b = len;
    assert(chars@.skip(a as int) == chars@.subrange(a as int, b as int));
    while b > a && space(chars[b - 1])
        invariant
            a <= b <= len,
            len == chars@.len(),
            trim_end_space(chars@.subrange(a as int, b as int)) == trim(chars@.skip(start as int)),
        decreases b,
    {
        assert(chars@.subrange(a as int, b as int).drop_last() == chars@.subrange(a as int, b - 1));
        b = b - 1;
    }
    let mut out: Vec<char> = Vec::new();
    let mut i = a;
    while i < b
        invariant
            a <= i <= b <= len,
            len == chars@.len(),
            out@ == chars@.subrange(a as int, i as int),
        decreases b - i,
    {
        out.push(chars[i]);
        assert(chars@.subrange(a as int, i + 1) == chars@.subrange(a as int, i as int).push(chars@[i as int]));
        i = i + 1;
    }
    crate::text::string_of(out.as_slice())
}

/// `s` without leading or trailing white space.
pub fn trim_text(s: &str) -> (r: String)
    ensures
        r@ == trim(s@),
{
    let chars = crate::text::chars_of(s);
    assert(chars@.skip(0) == chars@);
    trimmed(&chars, 0)
}

/// The event a frame names, or nothing.
pub open spec fn event_name(e: Option<String>) -> Seq<char> {
    match e {
        Some(x) => x@,
        None => Seq::empty(),
    }
}

/// What a frame carries so far: its event name and its data.
pub struct FrameState {
    pub event: Option<Seq<char>>,
    pub data: Seq<char>,
}

/// The `data:` payload of a line starting `data:`, less one leading space.
pub open spec fn data_payload(line: Seq<char>) -> Seq<char> {
    let rest = line.skip(5);
    if rest.len() > 0 && rest[0] == ' ' { rest.skip(1) } else { rest }
}

/// How one line changes a frame. Blank lines, comments and unknown fields
/// change nothing.
pub open spec fn apply_line(st: FrameState, line: Seq<char>) -> FrameState {
    if line.len() == 0 || line[0] == ':' {
        st
    } else if has_prefix(line, "event:"@) {
        FrameState { event: Some(trim(line.skip(6))), data: st.data }
    } else if has_prefix(line, "data:"@) {
        FrameState {
            event: st.event,
            data: if st.data.len() > 0 { st.data.push('\n') + data_payload(line) } else { st.data + data_payload(line) },
        }
    } else {
        st
    }
}

/// `s` without one trailing carriage return.
pub open spec fn strip_cr(s: Seq<u8>) -> Seq<u8> {
    if s.len() > 0 && s.last() == 13u8 { s.drop_last() } else { s }
}

/// The first newline at or after `i`.
pub open spec fn newline_search(b: Seq<u8>, i: int) -> Option<int>
    decreases b.len() - i,
{
    if i < 0 || i >= b.len() {
        None
    } else if b[i] == 10u8 {
        Some(i)
    } else {
        newline_search(b, i + 1)
    }
}

/// Applies the lines of `b[i..]` to `st`.
///
/// Lines end at `\n`. A line that a newline ends loses a `\r` to the line
/// ending and one more to the frame parser; the final, unterminated line loses
/// one.
pub open spec fn apply_lines(st: FrameState, b: Seq<u8>, i: int) -> FrameState
    decreases b.len() - i,
{
    if i < 0 || i >= b.len() {
        st
    } else {
        proof {
            lemma_newline_range(b, i);
        }
        match newline_search(b, i) {
            Some(k) => apply_lines(
                apply_line(st, utf8_lossy(strip_cr(strip_cr(b.subrange(i, k))))),
                b,
                k + 1,
            ),
            None => apply_line(st, utf8_lossy(strip_cr(b.subrange(i, b.len() as int)))),
        }
    }
}

/// A line break found from `i` lies at or after `i`, inside the bytes.
pub proof fn lemma_newline_range(b: Seq<u8>, i: int)
    requires
        0 <= i,
    ensures
        newline_search(b, i) matches Some(k) ==> i <= k < b.len() && b[k] == 10u8,
    decreases b.len() - i,
{
    if i < b.len() && b[i] != 10u8 {
        lemma_newline_range(b, i + 1);
    }
}

/// The frame a frame's text decodes to.
pub open spec fn frame_of(b: Seq<u8>) -> FrameState {
    apply_lines(FrameState { event: None, data: Seq::empty() }, b, 0)
}

/// The view of a decoded frame.
pub open spec fn frame_view(f: SseFrame) -> FrameState {
    FrameState {
        event: match f.event { Some(e) => Some(e@), None => None },
        data: f.data@,
    }
}

proof fn lemma_newline_search(b: Seq<u8>, from: int, i: int)
    requires
        0 <= from <= i,
        forall|j: int| from <= j < i ==> b[j] != 10u8,
    ensures
        newline_search(b, from) == newline_search(b, i),
    decreases i - from,
{
    if from < i {
        lemma_newline_search(b, from + 1, i);
    }
}

/// Whether `chars` begins with the characters of `prefix`.
fn starts_with(chars: &Vec<char>, prefix: &str) -> (r: bool)
    ensures
        r == has_prefix(chars@, prefix@),
{
    let p = crate::text::chars_of(prefix);
    if p.len() > chars.len() {
        return false;
    }
    let mut i: usize = 0;
    while i < p.len()
        invariant
            p@ == prefix@,
            p@.len() <= chars@.len(),
            i <= p@.len(),
            forall|k: int| 0 <= k < i ==> chars@[k] == p@[k],
        decreases p@.len() - i,
    {
        if chars[i] != p[i] {
            assert(chars@.take(p@.len() as int)[i as int] != p@[i as int]);
            return false;
        }
        i = i + 1;
    }
    assert(chars@.take(p@.len() as int) =~= p@);
    true
}

/// Applies one decoded line to the frame being built.
fn line_into(event: &mut Option<String>, data: &mut String, line: &str)
    ensures
        frame_view(SseFrame { event: *final(event), data: *final(data) })
            == apply_line(frame_view(SseFrame { event: *old(event), data: *old(data) }), line@),
{
    let chars = crate::text::chars_of(line);
    if chars.len() == 0 || chars[0] == ':' {
        return;
    }
    if starts_with(&chars, "event:") {
        proof { reveal_strlit("event:"); }
        *event = Some(trimmed(&chars, 6));
    } else if starts_with(&chars, "data:") {
        proof { reveal_strlit("data:"); }
        if !data.as_str().is_empty() {
            crate::text::push_char(data, '\n');
        }
        let mut start: usize = 5;
        if chars.len() > 5 && chars[5] == ' ' {
            start = 6;
        }
        let mut i = start;
        while i < chars.len()
            invariant
                5 <= start <= i <= chars@.len(),
                start == 6 ==> chars@.len() > 5 && chars@[5] == ' ',
                start == 5 ==> !(chars@.len() > 5 && chars@[5] == ' '),
                data@ == (if old(data)@.len() > 0 { old(data)@.push('\n') } else { old(data)@ })
                    + chars@.subrange(start as int, i as int),
            decreases chars@.len() - i,
        {
            crate::text::push_char(data, chars[i]);
            assert(chars@.subrange(start as int, i + 1) == chars@.subrange(start as int, i as int).push(chars@[i as int]));
            i = i + 1;
        }
        proof {
            let rest = chars@.skip(5);
            if start == 6 {
                assert(rest.skip(1) =~= chars@.subrange(6, chars@.len() as int));
            } else {
                assert(rest =~= chars@.subrange(5, chars@.len() as int));
            }
            assert(data_payload(line@) == chars@.subrange(start as int, chars@.len() as int));
        }
    }
}

/// Copies `bytes[start..end]`, less trailing carriage returns as a line ending
/// removes them.
fn line_bytes(bytes: &Vec<u8>, start: usize, end: usize, terminated: bool) -> (r: Vec<u8>)
    requires
        start <= end <= bytes@.len(),
    ensures
        r@ == if terminated {
            strip_cr(strip_cr(bytes@.subrange(start as int, end as int)))
        } else {
            strip_cr(bytes@.subrange(start as int, end as int))
        },
{
    let mut stop = end;
    if stop > start && bytes[stop - 1] == 13 {
        stop = stop - 1;
    }
    if terminated && stop > start && bytes[stop - 1] == 13 {
        stop = stop - 1;
    }
    let mut out: Vec<u8> = Vec::new();
    let mut i = start;
    while i < stop
        invariant
            start <= i <= stop <= end <= bytes@.len(),
            out@ == bytes@.subrange(start as int, i as int),
        decreases stop - i,
    {
        out.push(bytes[i]);
        assert(bytes@.subrange(start as int, i + 1) == bytes@.subrange(start as int, i as int).push(bytes@[i as int]));
        i = i + 1;
    }
    proof {
        let seg = bytes@.subrange(start as int, end as int);
        assert(strip_cr(seg) == if end > start && bytes@[end - 1] == 13u8 { bytes@.subrange(start as int, end - 1) } else { seg });
        if end > start && bytes@[end - 1] == 13u8 {
            let s1 = bytes@.subrange(start as int, end - 1);
            assert(seg.drop_last() =~= s1);
            if terminated {
                if end - 1 > start && bytes@[end - 2] == 13u8 {
                    assert(s1.drop_last() =~= bytes@.subrange(start as int, end - 2));
                }
            }
        }
    }
    out
}

/// Decodes a frame's text.
pub fn parse_frame(bytes: &Vec<u8>) -> (r: SseFrame)
    ensures
        frame_view(r) == frame_of(bytes@),
{
    let mut event: Option<String> = None;
    let mut data = String::new();
    let len = bytes.len();
    let mut start: usize = 0;
    let mut i: usize = 0;
    while i < len
        invariant
            len == bytes@.len(),
            start <= i <= len,
            forall|j: int| start <= j < i ==> bytes@[j] != 10u8,
            apply_lines(frame_view(SseFrame { event, data }), bytes@, start as int) == frame_of(bytes@),
        decreases len - i,
    {
        if bytes[i] == 10 {
            proof {
                lemma_newline_search(bytes@, start as int, i as int);
            }
            let line = line_bytes(bytes, start, i, true);
            let text = decode_lossy(line.as_slice());
            line_into(&mut event, &mut data, text.as_str());
            start = i + 1;
        }
        i = i + 1;
    }
    if start < len {
        proof {
            lemma_newline_search(bytes@, start as int, len as int);
            assert(newline_search(bytes@, len as int) is None);
        }
        let line = line_bytes(bytes, start, len, false);
        let text = decode_lossy(line.as_slice());
        line_into(&mut event, &mut data, text.as_str());
    }
    SseFrame { event, data }
}

/// Accumulates response bytes and yields complete frames.
pub struct SseBuffer {
    bytes: Vec<u8>,
    /// How much of `bytes` has already been searched and found separator-free.
    scanned: usize,
}

impl SseBuffer {
    /// The part already searched holds no separator that a later scan could
    /// miss.
    pub closed spec fn wf(self) -> bool {
        &&& self.scanned <= self.bytes@.len()
        &&& forall|i: int| 0 <= i && i + 3 < self.scanned ==> !sep_at(self.bytes@, i)
    }

    /// The bytes held and not yet framed.
    pub closed spec fn pending(self) -> Seq<u8> {
        self.bytes@
    }

    /// An empty buffer.
    pub fn new() -> (r: Self)
        ensures
            r.wf(),
            r.pending() == Seq::<u8>::empty(),
    {
        SseBuffer { bytes: Vec::new(), scanned: 0 }
    }

    /// Appends raw bytes from the response body.
    pub fn push(&mut self, chunk: &[u8])
        requires
            old(self).wf(),
        ensures
            final(self).wf(),
            final(self).pending() == old(self).pending() + chunk@,
    {
        let ghost before = self.bytes@;
        self.bytes.extend_from_slice(chunk);
        proof {
            assert forall|i: int| 0 <= i && i + 3 < self.scanned implies !sep_at(self.bytes@, i) by {
                assert(!sep_at(before, i));
                assert(self.bytes@[i] == before[i]);
                assert(self.bytes@[i + 1] == before[i + 1]);
                assert(self.bytes@[i + 2] == before[i + 2]);
                assert(self.bytes@[i + 3] == before[i + 3]);
            }
        }
    }

    /// Whether the buffer has grown past what any real frame needs.
    pub fn overflowed(&self) -> (r: bool)
        ensures
            r == (self.pending().len() > MAX_FRAME_BYTES),
    {
        self.bytes.len() > MAX_FRAME_BYTES
    }

    /// Splits off the next complete frame, or `None` when more bytes are needed.
    pub fn next_frame(&mut self) -> (r: Option<SseFrame>)
        requires
            old(self).wf(),
        ensures
            final(self).wf(),
            match first_sep(old(self).pending()) {
                Some(i) => {
                    &&& r matches Some(f) && frame_view(f) == frame_of(old(self).pending().take(i))
                    &&& final(self).pending() == old(self).pending().skip(i + sep_len(old(self).pending(), i))
                },
                None => r is None && final(self).pending() == old(self).pending(),
            },
    {
        let from: usize = if self.scanned >= SEPARATOR_OVERLAP { self.scanned - SEPARATOR_OVERLAP } else { 0 };
        proof {
            assert forall|j: int| 0 <= j < from implies !sep_at(self.bytes@, j) by {
                assert(j + 3 < self.scanned);
            }
            lemma_sep_search_skips(self.bytes@, 0, from as int);
        }
        let total = self.bytes.len();
        let slice = self.bytes.as_slice();
        assert(slice@ == self.bytes@);
        let found = separator(slice, from);
        match found {
            None => {
                proof {
                    lemma_sep_search_found(self.bytes@, from as int);
                    assert forall|j: int| 0 <= j && j + 3 < self.bytes@.len() implies !sep_at(self.bytes@, j) by {
                        if j < from {
                            assert(j + 3 < self.scanned);
                        }
                    }
                }
                self.scanned = self.bytes.len();
                None
            }
            Some((end, next)) => {
                proof {
                    lemma_sep_search_found(self.bytes@, from as int);
                }
                let ghost whole = self.bytes@;
                let ghost k = sep_search(whole, from as int)->Some_0;
                assert(first_sep(whole) == Some(k));
                assert(sep_at(whole, k));
                assert(k + sep_len(whole, k) <= total);
                assert(end == k && next == k + sep_len(whole, k));
                assert(next <= whole.len());
                self.scanned = 0;
                let mut rest = self.bytes.split_off(next);
                std::mem::swap(&mut self.bytes, &mut rest);
                let raw = rest;
                assert(raw@ == whole.take(next as int));
                assert(self.bytes@ == whole.skip(next as int));
                let mut text: Vec<u8> = Vec::new();
                let mut i: usize = 0;
                while i < end
                    invariant
                        i <= end <= raw@.len(),
                        raw@ == whole.take(next as int),
                        text@ == raw@.take(i as int),
                    decreases end - i,
                {
                    text.push(raw[i]);
                    assert(raw@.take(i + 1) == raw@.take(i as int).push(raw@[i as int]));
                    i = i + 1;
                }
                assert(text@ == whole.take(end as int));
                Some(parse_frame(&text))
            }
        }
    }
}

} // verus!
