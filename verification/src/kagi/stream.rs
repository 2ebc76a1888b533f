//! Reading Kagi's message stream. Each poll of the stream answers with a
//! body of server-sent event lines: `id: ` lines move the read position,
//! `data: ` lines carry JSON events. This module frames a body into lines,
//! and decides, for the records the lines give, what a one-shot reader
//! answers (`PollState`) and what a streaming reader forwards
//! (`StreamState`).
use vstd::prelude::*;
use crate::error::{AppError, Result};
use crate::kagi::client::{
    event_content, extract_stream_content, step_prefix, upstream_failure, StreamEvent,
    UpstreamStep,
};
use crate::kagi::html::{strip_html, strip_html_spec};
use crate::numbers::{parse_unsigned, parse_unsigned_spec};
use crate::openai::chat::is_completion_stamp;
use crate::openai::{ChatCompletionChunk, ChoiceDelta};
use crate::text::{
    chars_of, is_prefix, lines_spec, slice_chars, split_lines, starts_with_at,
    string_from_chars, trim_chars, trim_spec,
};
use crate::utf8::{
    byte_len, index_at_byte, index_at_byte_exec, lemma_index_at_byte_unique, lemma_utf8_len_concat,
    str_byte_len, utf8_len,
};

verus! {

/// A line of a stream body.
#[derive(Debug, Clone, PartialEq)]
pub enum SseLine {
    /// An `id: ` line, with its number when it is one.
    Id(Option<u64>),
    /// A `data: ` line, with the text after the prefix.
    Data(String),
    /// Any other line.
    Other,
}

/// `line` is framed as `l`: a `data: ` line keeps the text after the
/// prefix; an `id: ` line keeps the number after the prefix when `str::parse`
/// reads one as a `u64`; any other line carries nothing.
pub open spec fn framed_as(l: SseLine, line: Seq<char>) -> bool {
    if is_prefix("data: "@, line) {
        l matches SseLine::Data(d) && d@ == line.skip(6)
    } else if is_prefix("id: "@, line) {
        l matches SseLine::Id(v) && match v {
            Some(n) => parse_unsigned_spec(line.skip(4), u64::MAX as nat) == Some(n as nat),
            None => parse_unsigned_spec(line.skip(4), u64::MAX as nat) is None,
        }
    } else {
        l is Other
    }
}

/// Frames one line.
fn frame_line(line: &[char]) -> (l: SseLine)
    ensures
        framed_as(l, line@),
{
    let data = chars_of("data: ");
    let id = chars_of("id: ");
    proof {
        reveal_strlit("data: ");
        reveal_strlit("id: ");
    }
    if starts_with_at(line, 0, &data) {
        let n = line.len();
        let rest = slice_chars(line, 6, n);
        assert(rest@ =~= line@.skip(6));
        SseLine::Data(string_from_chars(&rest))
    } else if starts_with_at(line, 0, &id) {
        let n = line.len();
        let rest = slice_chars(line, 4, n);
        assert(rest@ =~= line@.skip(4));
        SseLine::Id(parse_unsigned(&rest, u64::MAX))
    } else {
        SseLine::Other
    }
}

/// The lines of a stream body (as `str::lines` splits it), framed.
pub fn frame_stream_body(body: &str) -> (r: Vec<SseLine>)
    ensures
        r@.len() == lines_spec(body@).len(),
        forall|k: int| 0 <= k < r@.len() ==> framed_as(#[trigger] r@[k], lines_spec(body@)[k]),
{
    let chars = chars_of(body);
    let lines = split_lines(&chars);
    let mut r: Vec<SseLine> = Vec::new();
    let mut i: usize = 0;
    while i < lines.len()
        invariant
            i <= lines@.len(),
            lines@.len() == lines_spec(body@).len(),
            forall|k: int| 0 <= k < lines@.len() ==> #[trigger] lines@[k]@ == lines_spec(body@)[k],
            r@.len() == i,
            forall|k: int| 0 <= k < i ==> framed_as(#[trigger] r@[k], lines_spec(body@)[k]),
        decreases lines@.len() - i,
    {
        let l = frame_line(&lines[i]);
        r.push(l);
        i = i + 1;
    }
    r
}

/// A body that holds nothing but white space, which the streaming reader
/// skips.
pub fn is_blank(body: &str) -> (b: bool)
    ensures
        b == (trim_spec(body@).len() == 0),
{
    let chars = chars_of(body);
    trim_chars(&chars).len() == 0
}

/// A line of a stream body with its JSON read: an `id: ` line, a `data: `
/// line whose text parsed as JSON (with the event fields that were found),
/// or a line that counts for nothing.
#[derive(Debug, Clone, PartialEq)]
pub enum SseRecord {
    Id(Option<u64>),
    Event(StreamEvent),
    Skip,
}

/// The fields the readers use of the JSON text `data`, when `data` is JSON
/// (as `serde_json::from_str::<serde_json::Value>` reads it): `html_content`
/// and `text` where they are strings, `is_final` where it is a boolean,
/// `cursor` where it is an unsigned 64-bit integer.
pub uninterp spec fn json_event(data: Seq<char>) -> Option<
    (Option<Seq<char>>, Option<Seq<char>>, Option<bool>, Option<u64>),
>;

/// The fields of an event, as `json_event` gives them.
pub open spec fn event_fields(e: StreamEvent) -> (
    Option<Seq<char>>,
    Option<Seq<char>>,
    Option<bool>,
    Option<u64>,
) {
    (e.html_content.deep_view(), e.text.deep_view(), e.is_final, e.cursor)
}

/// `serde_json::from_str::<serde_json::Value>` on `data`, then
/// `Value::get` of the four fields with `as_str`, `as_bool` and `as_u64`:
/// `None` when `data` is not JSON, else the event with the fields found. The
/// result depends on `data` alone and is named `json_event`.
#[verifier::external_body]
fn read_event(data: &str) -> (r: Option<StreamEvent>)
    ensures
        json_event(data@) == (match r {
            Some(e) => Some(event_fields(e)),
            None => None,
        }),
{
    let v: serde_json::Value = serde_json::from_str(data).ok()?;
    let text = |k: &str| v.get(k).and_then(|x| x.as_str()).map(str::to_string);
    Some(StreamEvent {
        html_content: text("html_content"),
        text: text("text"),
        is_final: v.get("is_final").and_then(|x| x.as_bool()),
        cursor: v.get("cursor").and_then(|x| x.as_u64()),
    })
}

/// `rec` is what the line `line` counts for: an `id: ` line keeps its
/// number; a `data: ` line is the event whose fields its JSON gives, or
/// nothing when it is not JSON; any other line counts for nothing.
pub open spec fn record_of(line: SseLine, rec: SseRecord) -> bool {
    match line {
        SseLine::Id(x) => rec == SseRecord::Id(x),
        SseLine::Data(d) => match json_event(d@) {
            Some(f) => rec matches SseRecord::Event(e) && event_fields(e) == f,
            None => rec is Skip,
        },
        SseLine::Other => rec is Skip,
    }
}

/// What each framed line counts for, in order.
pub fn read_records(lines: Vec<SseLine>) -> (r: Vec<SseRecord>)
    ensures
        r@.len() == lines@.len(),
        forall|k: int| 0 <= k < r@.len() ==> record_of(lines@[k], #[trigger] r@[k]),
{
    let mut r: Vec<SseRecord> = Vec::new();
    let mut i: usize = 0;
    while i < lines.len()
        invariant
            i <= lines@.len(),
            r@.len() == i,
            forall|k: int| 0 <= k < i ==> record_of(lines@[k], #[trigger] r@[k]),
        decreases lines@.len() - i,
    {
        let rec = match &lines[i] {
            SseLine::Id(x) => SseRecord::Id(*x),
            SseLine::Data(d) => match read_event(d.as_str()) {
                Some(e) => SseRecord::Event(e),
                None => SseRecord::Skip,
            },
            SseLine::Other => SseRecord::Skip,
        };
        r.push(rec);
        i = i + 1;
    }
    r
}

/// `lines` are the lines of `body`, framed, and `recs` what each counts for.
pub open spec fn read_through(body: Seq<char>, lines: Seq<SseLine>, recs: Seq<SseRecord>) -> bool {
    &&& lines.len() == lines_spec(body).len()
    &&& recs.len() == lines.len()
    &&& forall|k: int|
        0 <= k < lines.len() ==> framed_as(#[trigger] lines[k], lines_spec(body)[k]) && record_of(
            lines[k],
            recs[k],
        )
}

/// `recs` is what the lines of `body` count for, line by line.
pub open spec fn body_records(body: Seq<char>, recs: Seq<SseRecord>) -> bool {
    exists|lines: Seq<SseLine>| #[trigger] read_through(body, lines, recs)
}

/// The records of a stream body: its lines, framed, each read for what it
/// counts for.
pub fn body_records_exec(body: &str) -> (r: Vec<SseRecord>)
    ensures
        body_records(body@, r@),
{
    let lines = frame_stream_body(body);
    let ghost ls = lines@;
    let r = read_records(lines);
    assert(read_through(body@, ls, r@));
    r
}

/// What one poll of the stream brought back.
#[derive(Debug, Clone, PartialEq)]
pub enum StreamReply {
    /// The request could not be made or answered; the text says why.
    Failed(String),
    /// The server answered with a status outside the 2xx range.
    Refused,
    /// The server answered with a 2xx status and this body.
    Body(String),
}

/// Where a one-shot reader of the stream stands.
pub enum PollView {
    /// Reading on, from position `cursor`, with the longest text seen.
    Pending(u64, Seq<char>),
    /// The stream ended with this answer.
    Complete(Seq<char>),
    /// An `id: ` line named the largest position, past which the reader
    /// cannot move.
    Overflow,
}

/// The one-shot reader after `rec`. An `id` at or past the position moves
/// the position just past it; a final event ends the stream with the text
/// seen so far or, when there is none, with the plain text of the event's
/// `text`; any other event keeps its text when that text is longer in bytes
/// than what was seen, and moves the position to the event's `cursor`.
pub open spec fn poll_step(st: PollView, rec: SseRecord) -> PollView {
    match st {
        PollView::Pending(cursor, acc) => match rec {
            SseRecord::Id(Some(id)) => if id >= cursor {
                if id == u64::MAX {
                    PollView::Overflow
                } else {
                    PollView::Pending((id + 1) as u64, acc)
                }
            } else {
                st
            },
            SseRecord::Event(e) => if e.is_final == Some(true) {
                if acc.len() > 0 {
                    PollView::Complete(acc)
                } else {
                    match e.text {
                        Some(t) => if t@.len() > 0 {
                            PollView::Complete(strip_html_spec(t@))
                        } else {
                            PollView::Complete(acc)
                        },
                        None => PollView::Complete(acc),
                    }
                }
            } else {
                let acc2 = match event_content(e) {
                    Some(c) => if byte_len(c) > byte_len(acc) {
                        c
                    } else {
                        acc
                    },
                    None => acc,
                };
                let cursor2 = match e.cursor {
                    Some(c) => c,
                    None => cursor,
                };
                PollView::Pending(cursor2, acc2)
            },
            _ => st,
        },
        _ => st,
    }
}

/// The one-shot reader after the records `recs`, in order.
pub open spec fn poll_fold(st: PollView, recs: Seq<SseRecord>) -> PollView
    decreases recs.len(),
{
    if recs.len() == 0 {
        st
    } else {
        poll_step(poll_fold(st, recs.drop_last()), recs.last())
    }
}

/// Once the reader has stopped, later records change nothing.
proof fn lemma_poll_fold_stopped(st: PollView, recs: Seq<SseRecord>, k: int)
    requires
        0 <= k <= recs.len(),
        !(poll_fold(st, recs.take(k)) is Pending),
    ensures
        poll_fold(st, recs) == poll_fold(st, recs.take(k)),
    decreases recs.len() - k,
{
    if k < recs.len() {
        assert(recs.take(k + 1).drop_last() =~= recs.take(k));
        lemma_poll_fold_stopped(st, recs, k + 1);
    } else {
        assert(recs.take(k) =~= recs);
    }
}

/// A one-shot reader of the stream: the position it reads from and the
/// longest text it has seen.
#[derive(Debug, Clone, PartialEq)]
pub struct PollState {
    pub cursor: u64,
    pub accumulated: String,
}

/// What a one-shot reader does after a body.
#[derive(Debug, Clone, PartialEq)]
pub enum PollOutcome {
    /// Poll again, from this state.
    Pending(PollState),
    /// Answer with this text.
    Complete(String),
    /// The position cannot move past the largest `u64`; reading stops
    /// there.
    CursorOverflow,
}

/// The view of an outcome.
pub open spec fn poll_outcome_view(o: PollOutcome) -> PollView {
    match o {
        PollOutcome::Pending(s) => PollView::Pending(s.cursor, s.accumulated@),
        PollOutcome::Complete(t) => PollView::Complete(t@),
        PollOutcome::CursorOverflow => PollView::Overflow,
    }
}

impl PollState {
    /// A reader at the start of the stream, having seen nothing.
    pub fn start() -> (r: Self)
        ensures
            r.cursor == 0,
            r.accumulated@.len() == 0,
    {
        PollState { cursor: 0, accumulated: String::new() }
    }

    /// The reader after one record.
    fn absorb_one(self, rec: &SseRecord) -> (r: PollOutcome)
        ensures
            poll_outcome_view(r) == poll_step(
                PollView::Pending(self.cursor, self.accumulated@),
                *rec,
            ),
    {
        let mut cursor = self.cursor;
        let mut acc = self.accumulated;
        match rec {
            SseRecord::Id(Some(id)) => {
                if *id >= cursor {
                    if *id == u64::MAX {
                        return PollOutcome::CursorOverflow;
                    }
                    cursor = *id + 1;
                }
            },
            SseRecord::Event(e) => {
                let is_final = match e.is_final {
                    Some(b) => b,
                    None => false,
                };
                if is_final {
                    if !acc.as_str().is_empty() {
                        return PollOutcome::Complete(acc);
                    }
                    match &e.text {
                        Some(t) => {
                            if !t.as_str().is_empty() {
                                return PollOutcome::Complete(strip_html(t.as_str()));
                            }
                        },
                        None => {},
                    }
                    return PollOutcome::Complete(acc);
                }
                match extract_stream_content(e) {
                    Some(c) => {
                        if str_byte_len(c.as_str()) > str_byte_len(acc.as_str()) {
                            acc = c;
                        }
                    },
                    None => {},
                }
                match e.cursor {
                    Some(c) => {
                        cursor = c;
                    },
                    None => {},
                }
            },
            _ => {},
        }
        PollOutcome::Pending(PollState { cursor, accumulated: acc })
    }

    /// The reader after the records of one body.
    pub fn absorb(self, records: &Vec<SseRecord>) -> (r: PollOutcome)
        ensures
            poll_outcome_view(r) == poll_fold(
                PollView::Pending(self.cursor, self.accumulated@),
                records@,
            ),
    {
        let ghost init = PollView::Pending(self.cursor, self.accumulated@);
        let mut st = self;
        let mut i: usize = 0;
        assert(records@.take(0) =~= Seq::<SseRecord>::empty());
        while i < records.len()
            invariant
                i <= records@.len(),
                init == PollView::Pending(self.cursor, self.accumulated@),
                poll_fold(init, records@.take(i as int)) == PollView::Pending(
                    st.cursor,
                    st.accumulated@,
                ),
            decreases records@.len() - i,
        {
            assert(records@.take(i + 1).drop_last() =~= records@.take(i as int));
            assert(records@.take(i + 1).last() == records@[i as int]);
            let ghost prev = PollView::Pending(st.cursor, st.accumulated@);
            let out = st.absorb_one(&records[i]);
            assert(poll_fold(init, records@.take(i + 1)) == poll_step(prev, records@[i as int]));
            match out {
                PollOutcome::Pending(next) => {
                    st = next;
                },
                _ => {
                    proof {
                        assert(poll_outcome_view(out) == poll_step(prev, records@[i as int]));
                        assert(!(poll_outcome_view(out) is Pending));
                        lemma_poll_fold_stopped(init, records@, i + 1);
                        assert(poll_fold(init, records@) == poll_outcome_view(out));
                    }
                    return out;
                },
            }
            i = i + 1;
        }
        assert(records@.take(i as int) =~= records@);
        PollOutcome::Pending(st)
    }
}

/// How a streaming reader's work ends.
#[derive(Debug, Clone, Copy, PartialEq, Eq)]
pub enum StreamEnd {
    /// Still reading.
    Open,
    /// A final event arrived: the stop chunk is sent and reading ends.
    Finished,
    /// Reading stops without a stop chunk: an `id: ` line named the largest
    /// position, or new text could not be cut at the byte length of the old
    /// text because that length falls inside a character.
    Broken,
}

/// Where a streaming reader stands: the position it reads from, the text it
/// has forwarded up to, the pieces of text it has sent, and whether it goes
/// on.
pub struct StreamView {
    pub cursor: u64,
    pub previous: Seq<char>,
    pub sent: Seq<Seq<char>>,
    pub end: StreamEnd,
}

/// The streaming reader after `rec`. An `id` at or past the position moves
/// the position just past it; a final event finishes the stream; an event
/// whose text is longer in bytes than the text forwarded so far sends the
/// part of the new text past that many bytes, and the new text becomes the
/// text forwarded so far.
pub open spec fn stream_step(m: StreamView, rec: SseRecord) -> StreamView {
    if !(m.end is Open) {
        m
    } else {
        match rec {
            SseRecord::Id(Some(id)) => if id >= m.cursor {
                if id == u64::MAX {
                    StreamView { end: StreamEnd::Broken, ..m }
                } else {
                    StreamView { cursor: (id + 1) as u64, ..m }
                }
            } else {
                m
            },
            SseRecord::Event(e) => if e.is_final == Some(true) {
                StreamView { end: StreamEnd::Finished, ..m }
            } else {
                match event_content(e) {
                    Some(c) => if byte_len(c) > byte_len(m.previous) {
                        match index_at_byte(c, byte_len(m.previous) as nat) {
                            Some(k) => {
                                let d = c.subrange(k, c.len() as int);
                                StreamView {
                                    previous: c,
                                    sent: if d.len() > 0 {
                                        m.sent.push(d)
                                    } else {
                                        m.sent
                                    },
                                    ..m
                                }
                            },
                            None => StreamView { end: StreamEnd::Broken, ..m },
                        }
                    } else {
                        m
                    },
                    None => m,
                }
            },
            _ => m,
        }
    }
}

/// The streaming reader after the records `recs`, in order.
pub open spec fn stream_fold(m: StreamView, recs: Seq<SseRecord>) -> StreamView
    decreases recs.len(),
{
    if recs.len() == 0 {
        m
    } else {
        stream_step(stream_fold(m, recs.drop_last()), recs.last())
    }
}

/// Once the streaming reader has stopped, later records change nothing.
proof fn lemma_stream_fold_stopped(m: StreamView, recs: Seq<SseRecord>, k: int)
    requires
        0 <= k <= recs.len(),
        !(stream_fold(m, recs.take(k)).end is Open),
    ensures
        stream_fold(m, recs) == stream_fold(m, recs.take(k)),
    decreases recs.len() - k,
{
    if k < recs.len() {
        assert(recs.take(k + 1).drop_last() =~= recs.take(k));
        lemma_stream_fold_stopped(m, recs, k + 1);
    } else {
        assert(recs.take(k) =~= recs);
    }
}

/// The texts of `v`.
pub open spec fn texts(v: Seq<String>) -> Seq<Seq<char>> {
    v.map_values(|s: String| s@)
}

/// A streaming reader of the stream: the position it reads from and the
/// text it has forwarded up to.
#[derive(Debug, Clone, PartialEq)]
pub struct StreamState {
    pub cursor: u64,
    pub previous: String,
}

/// What a streaming reader does after a body: send `deltas`, in order, as
/// content chunks, then go on from `state` while `end` is `Open`.
#[derive(Debug, Clone, PartialEq)]
pub struct StreamStep {
    pub state: StreamState,
    pub deltas: Vec<String>,
    pub end: StreamEnd,
}

impl StreamState {
    /// A reader at the start of the stream, having forwarded nothing.
    pub fn start() -> (r: Self)
        ensures
            r.cursor == 0,
            r.previous@.len() == 0,
    {
        StreamState { cursor: 0, previous: String::new() }
    }

    /// The reader after one record, adding what it sends to `deltas`.
    fn absorb_one(self, deltas: &mut Vec<String>, rec: &SseRecord) -> (r: (StreamState, StreamEnd))
        ensures
            stream_step(
                StreamView {
                    cursor: self.cursor,
                    previous: self.previous@,
                    sent: texts(old(deltas)@),
                    end: StreamEnd::Open,
                },
                *rec,
            ) == (StreamView {
                cursor: r.0.cursor,
                previous: r.0.previous@,
                sent: texts(final(deltas)@),
                end: r.1,
            }),
    {
        let cursor = self.cursor;
        let previous = self.previous;
        match rec {
            SseRecord::Id(Some(id)) => {
                if *id >= cursor {
                    if *id == u64::MAX {
                        return (StreamState { cursor, previous }, StreamEnd::Broken);
                    }
                    return (StreamState { cursor: *id + 1, previous }, StreamEnd::Open);
                }
                (StreamState { cursor, previous }, StreamEnd::Open)
            },
            SseRecord::Event(e) => {
                let is_final = match e.is_final {
                    Some(b) => b,
                    None => false,
                };
                if is_final {
                    return (StreamState { cursor, previous }, StreamEnd::Finished);
                }
                match extract_stream_content(e) {
                    Some(c) => {
                        let old_len = str_byte_len(previous.as_str());
                        if str_byte_len(c.as_str()) > old_len {
                            let chars = chars_of(c.as_str());
                            match index_at_byte_exec(&chars, old_len) {
                                Some(k) => {
                                    let n = chars.len();
                                    let piece = slice_chars(&chars, k, n);
                                    if piece.len() > 0 {
                                        let ghost before = deltas@;
                                        deltas.push(string_from_chars(&piece));
                                        assert(texts(deltas@) =~= texts(before).push(piece@));
                                    }
                                    (StreamState { cursor, previous: c }, StreamEnd::Open)
                                },
                                None => (StreamState { cursor, previous }, StreamEnd::Broken),
                            }
                        } else {
                            (StreamState { cursor, previous }, StreamEnd::Open)
                        }
                    },
                    None => (StreamState { cursor, previous }, StreamEnd::Open),
                }
            },
            _ => (StreamState { cursor, previous }, StreamEnd::Open),
        }
    }

    /// The reader after the records of one body, with the texts it sends.
    pub fn absorb(self, records: &Vec<SseRecord>) -> (r: StreamStep)
        ensures
            stream_fold(
                StreamView {
                    cursor: self.cursor,
                    previous: self.previous@,
                    sent: Seq::<Seq<char>>::empty(),
                    end: StreamEnd::Open,
                },
                records@,
            ) == (StreamView {
                cursor: r.state.cursor,
                previous: r.state.previous@,
                sent: texts(r.deltas@),
                end: r.end,
            }),
    {
        let ghost init = StreamView {
            cursor: self.cursor,
            previous: self.previous@,
            sent: Seq::<Seq<char>>::empty(),
            end: StreamEnd::Open,
        };
        let mut st = self;
        let mut deltas: Vec<String> = Vec::new();
        let mut i: usize = 0;
        assert(records@.take(0) =~= Seq::<SseRecord>::empty());
        assert(texts(deltas@) =~= Seq::<Seq<char>>::empty());
        while i < records.len()
            invariant
                i <= records@.len(),
                init == (StreamView {
                    cursor: self.cursor,
                    previous: self.previous@,
                    sent: Seq::<Seq<char>>::empty(),
                    end: StreamEnd::Open,
                }),
                stream_fold(init, records@.take(i as int)) == (StreamView {
                    cursor: st.cursor,
                    previous: st.previous@,
                    sent: texts(deltas@),
                    end: StreamEnd::Open,
                }),
            decreases records@.len() - i,
        {
            assert(records@.take(i + 1).drop_last() =~= records@.take(i as int));
            assert(records@.take(i + 1).last() == records@[i as int]);
            let ghost prev = StreamView {
                cursor: st.cursor,
                previous: st.previous@,
                sent: texts(deltas@),
                end: StreamEnd::Open,
            };
            let (next, end) = st.absorb_one(&mut deltas, &records[i]);
            assert(stream_fold(init, records@.take(i + 1)) == stream_step(prev, records@[i as int]));
            st = next;
            match end {
                StreamEnd::Open => {},
                _ => {
                    proof {
                        lemma_stream_fold_stopped(init, records@, i + 1);
                    }
                    return StreamStep { state: st, deltas, end };
                },
            }
            i = i + 1;
        }
        assert(records@.take(i as int) =~= records@);
        StreamStep { state: st, deltas, end: StreamEnd::Open }
    }
}

impl PollState {
    /// What a one-shot reader does with the reply to a poll: a failed request
    /// is the upstream error of polling the stream; a refused one ends the
    /// reading with the text seen so far; a body is read as its records are.
    pub fn answer(self, reply: StreamReply) -> (r: Result<PollOutcome>)
        ensures
            match reply {
                StreamReply::Failed(m) => r matches Err(AppError::UpstreamError(e)) && e@ == step_prefix(
                    UpstreamStep::PollStream,
                ) + m@,
                StreamReply::Refused => r matches Ok(PollOutcome::Complete(t)) && t@
                    == self.accumulated@,
                StreamReply::Body(b) => r matches Ok(o) && exists|recs: Seq<SseRecord>|
                    body_records(b@, recs) && #[trigger] poll_fold(
                        PollView::Pending(self.cursor, self.accumulated@),
                        recs,
                    ) == poll_outcome_view(o),
            },
    {
        match reply {
            StreamReply::Failed(m) => Err(upstream_failure(UpstreamStep::PollStream, m.as_str())),
            StreamReply::Refused => Ok(PollOutcome::Complete(self.accumulated)),
            StreamReply::Body(b) => {
                let ghost init = PollView::Pending(self.cursor, self.accumulated@);
                let recs = body_records_exec(b.as_str());
                let o = self.absorb(&recs);
                assert(poll_fold(init, recs@) == poll_outcome_view(o));
                Ok(o)
            },
        }
    }
}

/// What a streaming reader does with the reply to a poll: the step it takes
/// (the texts to send, the state to go on from, whether it goes on), then
/// how many milliseconds it waits before polling again.
#[derive(Debug, Clone, PartialEq)]
pub struct StreamTurn {
    pub step: StreamStep,
    pub pause_ms: u64,
}

impl StreamState {
    /// What a streaming reader does with the reply to a poll: after a failed
    /// or refused request it sends nothing and polls again in 500 ms; after
    /// a blank body, in 200 ms; any other body it reads as its records are
    /// and polls again at once.
    pub fn answer(self, reply: StreamReply) -> (r: StreamTurn)
        ensures
            match reply {
                StreamReply::Body(b) => if trim_spec(b@).len() == 0 {
                    &&& r.pause_ms == 200
                    &&& r.step.state.cursor == self.cursor
                    &&& r.step.state.previous@ == self.previous@
                    &&& r.step.deltas@.len() == 0
                    &&& r.step.end == StreamEnd::Open
                } else {
                    &&& r.pause_ms == 0
                    &&& exists|recs: Seq<SseRecord>|
                        body_records(b@, recs) && #[trigger] stream_fold(
                            StreamView {
                                cursor: self.cursor,
                                previous: self.previous@,
                                sent: Seq::<Seq<char>>::empty(),
                                end: StreamEnd::Open,
                            },
                            recs,
                        ) == (StreamView {
                            cursor: r.step.state.cursor,
                            previous: r.step.state.previous@,
                            sent: texts(r.step.deltas@),
                            end: r.step.end,
                        })
                },
                _ => {
                    &&& r.pause_ms == 500
                    &&& r.step.state.cursor == self.cursor
                    &&& r.step.state.previous@ == self.previous@
                    &&& r.step.deltas@.len() == 0
                    &&& r.step.end == StreamEnd::Open
                },
            },
    {
        match reply {
            StreamReply::Body(b) => {
                if is_blank(b.as_str()) {
                    StreamTurn {
                        step: StreamStep { state: self, deltas: Vec::new(), end: StreamEnd::Open },
                        pause_ms: 200,
                    }
                } else {
                    let ghost init = StreamView {
                        cursor: self.cursor,
                        previous: self.previous@,
                        sent: Seq::<Seq<char>>::empty(),
                        end: StreamEnd::Open,
                    };
                    let recs = body_records_exec(b.as_str());
                    let step = self.absorb(&recs);
                    assert(stream_fold(init, recs@) == (StreamView {
                        cursor: step.state.cursor,
                        previous: step.state.previous@,
                        sent: texts(step.deltas@),
                        end: step.end,
                    }));
                    StreamTurn { step, pause_ms: 0 }
                }
            },
            _ => StreamTurn {
                step: StreamStep { state: self, deltas: Vec::new(), end: StreamEnd::Open },
                pause_ms: 500,
            },
        }
    }
}

/// While a one-shot reader goes on, the text it has seen never shrinks in
/// bytes.
pub proof fn lemma_poll_text_never_shrinks(cursor: u64, acc: Seq<char>, recs: Seq<SseRecord>)
    ensures
        poll_fold(PollView::Pending(cursor, acc), recs) matches PollView::Pending(_, a2) ==> byte_len(
            a2,
        ) >= byte_len(acc),
    decreases recs.len(),
{
    if recs.len() > 0 {
        lemma_poll_text_never_shrinks(cursor, acc, recs.drop_last());
    }
}

/// The read position of a streaming reader never moves back.
pub proof fn lemma_stream_cursor_never_falls(m: StreamView, recs: Seq<SseRecord>)
    ensures
        stream_fold(m, recs).cursor >= m.cursor,
    decreases recs.len(),
{
    if recs.len() > 0 {
        lemma_stream_cursor_never_falls(m, recs.drop_last());
    }
}

/// An `id: N` line at or past the read position moves either reader just
/// past `N` (a one-shot reader stops at the largest position, a streaming
/// one breaks there); an `id: N` line before the position changes nothing.
pub proof fn lemma_id_moves_past(c: u64, a: Seq<char>, m: StreamView, n: u64)
    ensures
        c <= n < u64::MAX ==> poll_step(PollView::Pending(c, a), SseRecord::Id(Some(n)))
            == PollView::Pending((n + 1) as u64, a),
        c <= n && n == u64::MAX ==> poll_step(PollView::Pending(c, a), SseRecord::Id(Some(n)))
            == PollView::Overflow,
        n < c ==> poll_step(PollView::Pending(c, a), SseRecord::Id(Some(n))) == PollView::Pending(
            c,
            a,
        ),
        m.end is Open && m.cursor <= n < u64::MAX ==> stream_step(m, SseRecord::Id(Some(n)))
            == (StreamView { cursor: (n + 1) as u64, ..m }),
        m.end is Open && m.cursor <= n && n == u64::MAX ==> stream_step(
            m,
            SseRecord::Id(Some(n)),
        ) == (StreamView { end: StreamEnd::Broken, ..m }),
        n < m.cursor ==> stream_step(m, SseRecord::Id(Some(n))) == m,
{
}

/// `recs` holds an `id: N` line.
pub open spec fn reads_id(recs: Seq<SseRecord>, n: u64) -> bool {
    exists|i: int| 0 <= i < recs.len() && #[trigger] recs[i] == SseRecord::Id(Some(n))
}

/// A streaming reader that goes on reads from past every `id: N` line it
/// has read.
pub proof fn lemma_stream_reads_past_ids(m: StreamView, recs: Seq<SseRecord>, n: u64)
    requires
        reads_id(recs, n),
        stream_fold(m, recs).end is Open,
    ensures
        stream_fold(m, recs).cursor > n,
    decreases recs.len(),
{
    let front = recs.drop_last();
    let before = stream_fold(m, front);
    assert(before.end is Open) by {
        if !(before.end is Open) {
            assert(stream_step(before, recs.last()) == before);
        }
    }
    if recs.last() == SseRecord::Id(Some(n)) {
    } else {
        let i = choose|i: int| 0 <= i < recs.len() && #[trigger] recs[i] == SseRecord::Id(Some(n));
        assert(i < recs.len() - 1);
        assert(front[i] == recs[i]);
        lemma_stream_reads_past_ids(m, front, n);
    }
}

/// No event of `recs` names a read position.
pub open spec fn no_event_cursor(recs: Seq<SseRecord>) -> bool {
    forall|i: int| 0 <= i < recs.len() ==> !(#[trigger] recs[i] matches SseRecord::Event(e) && e.cursor is Some)
}

/// A one-shot reader that goes on after records whose events name no read
/// position reads from past every `id: N` line it has read.
pub proof fn lemma_poll_reads_past_ids(c: u64, a: Seq<char>, recs: Seq<SseRecord>, n: u64)
    requires
        reads_id(recs, n),
        no_event_cursor(recs),
        poll_fold(PollView::Pending(c, a), recs) is Pending,
    ensures
        poll_fold(PollView::Pending(c, a), recs) matches PollView::Pending(c2, _) && c2 > n,
    decreases recs.len(),
{
    let st = PollView::Pending(c, a);
    let front = recs.drop_last();
    let before = poll_fold(st, front);
    assert(before is Pending) by {
        if !(before is Pending) {
            assert(poll_step(before, recs.last()) == before);
        }
    }
    assert(recs.last() == recs[recs.len() - 1]);
    if recs.last() == SseRecord::Id(Some(n)) {
    } else {
        let i = choose|i: int| 0 <= i < recs.len() && #[trigger] recs[i] == SseRecord::Id(Some(n));
        assert(i < recs.len() - 1);
        assert(front[i] == recs[i]);
        assert forall|j: int| 0 <= j < front.len() implies !(#[trigger] front[j] matches SseRecord::Event(
            e,
        ) && e.cursor is Some) by {
            assert(front[j] == recs[j]);
        }
        lemma_poll_reads_past_ids(c, a, front, n);
    }
}

/// The pieces `parts`, one after the other.
pub open spec fn joined(parts: Seq<Seq<char>>) -> Seq<char>
    decreases parts.len(),
{
    if parts.len() == 0 {
        Seq::<char>::empty()
    } else {
        joined(parts.drop_last()) + parts.last()
    }
}

/// The text `rec` carries, if any, has a byte length that fits in `usize`,
/// and continues the text the reader has forwarded whenever it is longer in
/// bytes (a text no longer than that is passed over by the reader, whatever
/// it holds).
pub open spec fn continues_text(m: StreamView, rec: SseRecord) -> bool {
    match rec {
        SseRecord::Event(e) => match event_content(e) {
            Some(c) => utf8_len(c) <= usize::MAX && (byte_len(c) > byte_len(m.previous) ==> is_prefix(
                m.previous,
                c,
            )),
            None => true,
        },
        _ => true,
    }
}

/// When the new text continues the forwarded text, the piece sent is
/// exactly the continuation: what was forwarded before, followed by the
/// pieces sent, stays the text forwarded so far.
pub proof fn lemma_stream_step_reassembles(m: StreamView, rec: SseRecord, base: Seq<char>)
    requires
        m.previous == base + joined(m.sent),
        continues_text(m, rec),
    ensures
        stream_step(m, rec).previous == base + joined(stream_step(m, rec).sent),
{
    if m.end is Open {
        if let SseRecord::Event(e) = rec {
            if e.is_final != Some(true) {
                if let Some(c) = event_content(e) {
                    if byte_len(c) > byte_len(m.previous) {
                        let p = m.previous;
                        let rest = c.subrange(p.len() as int, c.len() as int);
                        assert(c =~= p + rest);
                        assert(c.take(p.len() as int) =~= p);
                        lemma_utf8_len_concat(p, rest);
                        assert(byte_len(p) as nat == utf8_len(p));
                        lemma_index_at_byte_unique(c, utf8_len(p), p.len() as int);
                        let d = rest;
                        if d.len() > 0 {
                            let sent2 = m.sent.push(d);
                            assert(sent2.drop_last() =~= m.sent);
                            assert(joined(sent2) == joined(m.sent) + d);
                            assert(base + joined(sent2) =~= (base + joined(m.sent)) + d);
                        } else {
                            assert(c =~= p);
                        }
                    }
                }
            }
        }
    }
}

/// Every record continues the text forwarded before it.
pub open spec fn all_continue(m: StreamView, recs: Seq<SseRecord>) -> bool {
    forall|k: int| 0 <= k < recs.len() ==> continues_text(stream_fold(m, recs.take(k)), #[trigger] recs[k])
}

/// When every text upstream sends that is longer than the one before it
/// extends that one, the pieces a streaming reader sends, joined after the
/// text it started from, give the text it has forwarded: a client that
/// concatenates the chunks gets the text.
pub proof fn lemma_stream_reassembles(m: StreamView, recs: Seq<SseRecord>, base: Seq<char>)
    requires
        m.previous == base + joined(m.sent),
        all_continue(m, recs),
    ensures
        stream_fold(m, recs).previous == base + joined(stream_fold(m, recs).sent),
    decreases recs.len(),
{
    if recs.len() > 0 {
        let front = recs.drop_last();
        assert forall|k: int| 0 <= k < front.len() implies continues_text(
            stream_fold(m, front.take(k)),
            #[trigger] front[k],
        ) by {
            assert(front.take(k) =~= recs.take(k));
            assert(continues_text(stream_fold(m, recs.take(k)), recs[k]));
        }
        lemma_stream_reassembles(m, front, base);
        let k = recs.len() - 1;
        assert(recs.take(k) =~= front);
        assert(continues_text(stream_fold(m, recs.take(k)), recs[k]));
        lemma_stream_step_reassembles(stream_fold(m, front), recs.last(), base);
    }
}

/// No record is an `id: ` line naming the largest position.
pub open spec fn no_last_position(recs: Seq<SseRecord>) -> bool {
    forall|i: int| 0 <= i < recs.len() ==> !(#[trigger] recs[i] == SseRecord::Id(Some(u64::MAX)))
}

/// The one-shot reader and the streaming reader agree on the text: fed the
/// same records from the same text, while the streaming reader goes on the
/// one-shot reader goes on with the text the streaming reader has
/// forwarded, and when the streaming reader finishes with some text, the
/// one-shot reader answers with that text.
pub proof fn lemma_readers_agree(poll_cursor: u64, m: StreamView, recs: Seq<SseRecord>)
    requires
        m.end is Open,
        no_last_position(recs),
    ensures
        stream_fold(m, recs).end is Open ==> (poll_fold(
            PollView::Pending(poll_cursor, m.previous),
            recs,
        ) matches PollView::Pending(_, a) && a == stream_fold(m, recs).previous),
        stream_fold(m, recs).end is Finished && stream_fold(m, recs).previous.len() > 0 ==> poll_fold(
            PollView::Pending(poll_cursor, m.previous),
            recs,
        ) == PollView::Complete(stream_fold(m, recs).previous),
    decreases recs.len(),
{
    if recs.len() > 0 {
        let front = recs.drop_last();
        assert forall|i: int| 0 <= i < front.len() implies !(#[trigger] front[i] == SseRecord::Id(
            Some(u64::MAX),
        )) by {
            assert(front[i] == recs[i]);
        }
        lemma_readers_agree(poll_cursor, m, front);
        assert(recs.last() == recs[recs.len() - 1]);
    }
}

/// A reader of either kind at the start of the stream.
pub open spec fn stream_start() -> StreamView {
    StreamView {
        cursor: 0,
        previous: Seq::<char>::empty(),
        sent: Seq::<Seq<char>>::empty(),
        end: StreamEnd::Open,
    }
}

/// The streamed answer and the one-shot answer are the same text: fed the
/// same records from the start of the stream, when the streaming reader
/// finishes having forwarded some text, the pieces it sent, joined, are the
/// text the one-shot reader answers with.
pub proof fn lemma_stream_matches_answer(recs: Seq<SseRecord>)
    requires
        no_last_position(recs),
        all_continue(stream_start(), recs),
        stream_fold(stream_start(), recs).end is Finished,
        joined(stream_fold(stream_start(), recs).sent).len() > 0,
    ensures
        poll_fold(PollView::Pending(0, Seq::<char>::empty()), recs) == PollView::Complete(
            joined(stream_fold(stream_start(), recs).sent),
        ),
{
    let m = stream_start();
    assert(m.previous =~= Seq::<char>::empty() + joined(m.sent));
    lemma_stream_reassembles(m, recs, Seq::<char>::empty());
    let out = stream_fold(m, recs);
    assert(out.previous =~= joined(out.sent));
    lemma_readers_agree(0, m, recs);
}

/// A record that continues the forwarded text and is not an `id: ` line
/// naming the largest position does not break a reader that has not broken.
pub proof fn lemma_stream_step_never_breaks(m: StreamView, rec: SseRecord)
    requires
        !(m.end is Broken),
        continues_text(m, rec),
        rec != SseRecord::Id(Some(u64::MAX)),
    ensures
        !(stream_step(m, rec).end is Broken),
{
    if m.end is Open {
        if let SseRecord::Event(e) = rec {
            if e.is_final != Some(true) {
                if let Some(c) = event_content(e) {
                    if byte_len(c) > byte_len(m.previous) {
                        let p = m.previous;
                        let rest = c.subrange(p.len() as int, c.len() as int);
                        assert(c =~= p + rest);
                        assert(c.take(p.len() as int) =~= p);
                        lemma_utf8_len_concat(p, rest);
                        assert(byte_len(p) as nat == utf8_len(p));
                        lemma_index_at_byte_unique(c, utf8_len(p), p.len() as int);
                    }
                }
            }
        }
    }
}

/// A streaming reader never stops early: when every longer text continues
/// the one before it and no `id: ` line names the largest position, a
/// reader that has not broken is, after any records, still reading or
/// finished.
pub proof fn lemma_stream_never_breaks(m: StreamView, recs: Seq<SseRecord>)
    requires
        !(m.end is Broken),
        no_last_position(recs),
        all_continue(m, recs),
    ensures
        !(stream_fold(m, recs).end is Broken),
    decreases recs.len(),
{
    if recs.len() > 0 {
        let front = recs.drop_last();
        assert forall|k: int| 0 <= k < front.len() implies continues_text(
            stream_fold(m, front.take(k)),
            #[trigger] front[k],
        ) by {
            assert(front.take(k) =~= recs.take(k));
            assert(continues_text(stream_fold(m, recs.take(k)), recs[k]));
        }
        assert forall|i: int| 0 <= i < front.len() implies !(#[trigger] front[i] == SseRecord::Id(
            Some(u64::MAX),
        )) by {
            assert(front[i] == recs[i]);
        }
        lemma_stream_never_breaks(m, front);
        let k = recs.len() - 1;
        assert(recs.take(k) =~= front);
        assert(continues_text(stream_fold(m, recs.take(k)), recs[k]));
        assert(recs.last() == recs[k]);
        lemma_stream_step_never_breaks(stream_fold(m, front), recs.last());
    }
}

/// The chunk of `model` that adds `delta` to the message.
pub fn delta_chunk(model: &str, delta: &str) -> (c: ChatCompletionChunk)
    ensures
        is_completion_stamp(c.id@, c.created),
        c.model@ == model@,
        c.object@ == "chat.completion.chunk"@,
        c.choices@.len() == 1,
        c.choices@[0].index == 0,
        c.choices@[0].delta.role is None,
        c.choices@[0].delta.content matches Some(t) && t@ == delta@,
        c.choices@[0].delta.tool_calls is None,
        c.choices@[0].finish_reason is None,
{
    let mut choices = Vec::new();
    choices.push(ChoiceDelta::content(delta));
    ChatCompletionChunk::new(model.to_owned(), choices)
}

/// The chunk of `model` that ends the message with the reason `stop`.
pub fn stop_chunk(model: &str) -> (c: ChatCompletionChunk)
    ensures
        is_completion_stamp(c.id@, c.created),
        c.model@ == model@,
        c.object@ == "chat.completion.chunk"@,
        c.choices@.len() == 1,
        c.choices@[0].index == 0,
        c.choices@[0].delta.role is None,
        c.choices@[0].delta.content is None,
        c.choices@[0].delta.tool_calls is None,
        c.choices@[0].finish_reason.deep_view() == Some("stop"@),
{
    let mut choices = Vec::new();
    choices.push(ChoiceDelta::finish("stop"));
    ChatCompletionChunk::new(model.to_owned(), choices)
}

} // verus!
