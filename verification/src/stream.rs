//! The events of a streamed answer, and the decoding of the server-sent events
//! in which an OpenAI-compatible server streams it: text arrives in pieces,
//! and tool calls arrive as a start and pieces of their arguments.
use vstd::prelude::*;
use crate::json::{json_compact, json_compact_text, opt_view};
use crate::message::{calls_view, ToolCall, ToolCallView};
use crate::text::{
    chars_of, find_char_exec, find_char_from, lemma_find_char_from_range, owned, push_str,
    slice_vec, starts_with, starts_with_exec, str_eq, string_of, trim, trim_exec,
};

verus! {

/// An event of a streamed answer.
#[derive(Debug, Clone)]
pub enum StreamEvent {
    /// A piece of text.
    Token(String),
    /// A tool call starts.
    ToolCallStart { id: String, name: String },
    /// A piece of a tool call's arguments.
    ToolCallDelta { id: String, arguments_delta: String },
    /// A tool call is complete; its arguments as JSON text.
    ToolCallEnd { id: String, name: String, arguments: String },
    /// The content of a file before a tool changes it.
    ToolSnapshot { path: String, content: String },
    /// What a tool gave.
    ToolResult { id: String, name: String, output: String },
    /// The answer is complete.
    Done,
    /// Something went wrong.
    Error(String),
}

/// The value of a [`StreamEvent`].
pub ghost enum EventView {
    Token(Seq<char>),
    Start(Seq<char>, Seq<char>),
    Delta(Seq<char>, Seq<char>),
    End(Seq<char>, Seq<char>, Seq<char>),
    Snapshot(Seq<char>, Seq<char>),
    Result(Seq<char>, Seq<char>, Seq<char>),
    Done,
    Error(Seq<char>),
}

impl View for StreamEvent {
    type V = EventView;

    open spec fn view(&self) -> EventView {
        match self {
            StreamEvent::Token(t) => EventView::Token(t@),
            StreamEvent::ToolCallStart { id, name } => EventView::Start(id@, name@),
            StreamEvent::ToolCallDelta { id, arguments_delta } => EventView::Delta(id@, arguments_delta@),
            StreamEvent::ToolCallEnd { id, name, arguments } => EventView::End(id@, name@, arguments@),
            StreamEvent::ToolSnapshot { path, content } => EventView::Snapshot(path@, content@),
            StreamEvent::ToolResult { id, name, output } => EventView::Result(id@, name@, output@),
            StreamEvent::Done => EventView::Done,
            StreamEvent::Error(e) => EventView::Error(e@),
        }
    }
}

/// The values of events.
pub open spec fn events_view(v: Seq<StreamEvent>) -> Seq<EventView> {
    v.map_values(|e: StreamEvent| e@)
}

/// A complete answer of the model.
#[derive(Debug)]
pub enum ChatResponse {
    Text(String),
    ToolCall(Vec<ToolCall>),
}

/// The events that stand for a complete answer: its text, or each call's start
/// and end, then the end of the answer.
pub open spec fn response_events(r: ChatResponse) -> Seq<EventView> {
    match r {
        ChatResponse::Text(t) => seq![EventView::Token(t@), EventView::Done],
        ChatResponse::ToolCall(cs) => calls_events(calls_view(cs@)).push(EventView::Done),
    }
}

/// A start and an end for each call.
pub open spec fn calls_events(cs: Seq<ToolCallView>) -> Seq<EventView>
    decreases cs.len(),
{
    if cs.len() == 0 {
        Seq::empty()
    } else {
        calls_events(cs.drop_last()) + seq![
            EventView::Start(cs.last().id, cs.last().name),
            EventView::End(cs.last().id, cs.last().name, cs.last().arguments),
        ]
    }
}

fn push_event(v: &mut Vec<StreamEvent>, e: StreamEvent)
    ensures
        events_view(final(v)@) == events_view(old(v)@).push(e@),
{
    let ghost before = v@;
    v.push(e);
    assert(events_view(v@) =~= events_view(before).push(e@));
}

/// The events of a complete answer, for a server that does not stream.
pub fn response_to_events(r: ChatResponse) -> (out: Vec<StreamEvent>)
    ensures
        events_view(out@) == response_events(r),
{
    let ghost rr = r;
    let mut out: Vec<StreamEvent> = Vec::new();
    match r {
        ChatResponse::Text(t) => {
            push_event(&mut out, StreamEvent::Token(t));
            push_event(&mut out, StreamEvent::Done);
            assert(events_view(out@) =~= response_events(rr));
        },
        ChatResponse::ToolCall(cs) => {
            let ghost cv = calls_view(cs@);
            let mut i: usize = 0;
            while i < cs.len()
                invariant
                    i <= cs.len(),
                    cv == calls_view(cs@),
                    events_view(out@) == calls_events(cv.take(i as int)),
                decreases cs.len() - i,
            {
                let c = &cs[i];
                assert(cv.take(i + 1).drop_last() =~= cv.take(i as int));
                assert(cv.take(i + 1).last() == c@);
                let ghost before = events_view(out@);
                push_event(&mut out, StreamEvent::ToolCallStart { id: owned(c.id.as_str()), name: owned(c.name.as_str()) });
                push_event(
                    &mut out,
                    StreamEvent::ToolCallEnd {
                        id: owned(c.id.as_str()),
                        name: owned(c.name.as_str()),
                        arguments: owned(c.arguments.as_str()),
                    },
                );
                assert(events_view(out@) =~= before + seq![
                    EventView::Start(c@.id, c@.name),
                    EventView::End(c@.id, c@.name, c@.arguments),
                ]);
                i += 1;
            }
            assert(cv.take(cs.len() as int) =~= cv);
            push_event(&mut out, StreamEvent::Done);
        },
    }
    out
}

// ───────────────────────────── server-sent events ─────────────────────────────

/// A tool-call piece as `serde_json` reads it: its `index`, `id`,
/// `function.name` and `function.arguments`, each where present and of the
/// right kind.
pub type RawPiece = (Option<u64>, Option<Seq<char>>, Option<Seq<char>>, Option<Seq<char>>);

/// What `serde_json` reads from the JSON `data` of one streamed chunk: `None`
/// when it is not JSON; else, of the first choice's `delta`, its `content`
/// when it is a string, and its `tool_calls` when they are an array.
pub uninterp spec fn chunk_fields(data: Seq<char>) -> Option<(Option<Seq<char>>, Option<Seq<RawPiece>>)>;

/// The value of a raw piece.
pub open spec fn raw_piece_view(t: (Option<u64>, Option<String>, Option<String>, Option<String>)) -> RawPiece {
    (t.0, opt_view(t.1), opt_view(t.2), opt_view(t.3))
}

/// The values of raw pieces.
pub open spec fn raw_views(v: Seq<(Option<u64>, Option<String>, Option<String>, Option<String>)>) -> Seq<RawPiece> {
    v.map_values(|p: (Option<u64>, Option<String>, Option<String>, Option<String>)| raw_piece_view(p))
}

/// The values of pieces with their defaults.
pub open spec fn piece_views(v: Seq<(u64, String, String, String)>) -> Seq<(u64, Seq<char>, Seq<char>, Seq<char>)> {
    v.map_values(|t: (u64, String, String, String)| (t.0, t.1@, t.2@, t.3@))
}

/// The value of what [`parse_chunk`] reads.
pub open spec fn raw_chunk_view(r: Option<(Option<String>, Option<Vec<(Option<u64>, Option<String>, Option<String>, Option<String>)>>)>) -> Option<(Option<Seq<char>>, Option<Seq<RawPiece>>)> {
    match r {
        None => None,
        Some((c, t)) => Some((opt_view(c), match t {
            Some(v) => Some(raw_views(v@)),
            None => None,
        })),
    }
}

/// Parses a chunk with `serde_json::from_str` and reads, from the first
/// element of `choices`, its `delta`'s `content` and each element of its
/// `tool_calls` (`index`, `id`, `function.name`, `function.arguments`). The
/// contract only names the result.
#[verifier::external_body]
fn parse_chunk(data: &str) -> (r: Option<(Option<String>, Option<Vec<(Option<u64>, Option<String>, Option<String>, Option<String>)>>)>)
    ensures
        raw_chunk_view(r) == chunk_fields(data@),
{
    let v: serde_json::Value = serde_json::from_str(data).ok()?;
    let d = &v["choices"][0]["delta"];
    let tcs = d["tool_calls"].as_array().map(|a| a.iter().map(|t| (
        t["index"].as_u64(),
        t["id"].as_str().map(String::from),
        t["function"]["name"].as_str().map(String::from),
        t["function"]["arguments"].as_str().map(String::from),
    )).collect());
    Some((d["content"].as_str().map(String::from), tcs))
}

/// The text, or the empty text when there is none.
pub open spec fn or_empty(o: Option<Seq<char>>) -> Seq<char> {
    match o {
        Some(t) => t,
        None => Seq::empty(),
    }
}

/// A piece with its defaults: index 0, and empty id, name and arguments
/// where they are missing.
pub open spec fn piece_defaults(p: RawPiece) -> (u64, Seq<char>, Seq<char>, Seq<char>) {
    (match p.0 { Some(i) => i, None => 0 }, or_empty(p.1), or_empty(p.2), or_empty(p.3))
}

/// What a chunk brings: `None` when it is not JSON; else the text of the
/// delta, if any, and its tool-call pieces with their defaults (none when
/// `tool_calls` is absent).
pub open spec fn chunk_delta(data: Seq<char>) -> Option<(Option<Seq<char>>, Seq<(u64, Seq<char>, Seq<char>, Seq<char>)>)> {
    match chunk_fields(data) {
        None => None,
        Some((c, t)) => Some((c, match t {
            Some(ps) => ps.map_values(|p: RawPiece| piece_defaults(p)),
            None => Seq::empty(),
        })),
    }
}

pub(crate) fn text_or_empty(o: Option<String>) -> (r: String)
    ensures
        r@ == or_empty(opt_view(o)),
{
    match o {
        Some(t) => t,
        None => String::new(),
    }
}

/// Reads a chunk and gives its pieces their defaults.
fn read_chunk(data: &str) -> (r: Option<(Option<String>, Vec<(u64, String, String, String)>)>)
    ensures
        match r {
            Some((c, tcs)) => chunk_delta(data@) == Some((
                opt_view(c),
                tcs@.map_values(|t: (u64, String, String, String)| (t.0, t.1@, t.2@, t.3@)),
            )),
            None => chunk_delta(data@) is None,
        },
{
    match parse_chunk(data) {
        None => None,
        Some((c, None)) => {
            let v: Vec<(u64, String, String, String)> = Vec::new();
            assert(v@.map_values(|t: (u64, String, String, String)| (t.0, t.1@, t.2@, t.3@)) =~= Seq::empty());
            Some((c, v))
        },
        Some((c, Some(raw))) => {
            let ghost rv = raw_views(raw@);
            let mut out: Vec<(u64, String, String, String)> = Vec::new();
            let mut rest = raw;
            let ghost n = rv.len();
            while rest.len() > 0
                invariant
                    out.len() + rest.len() == n,
                    n == rv.len(),
                    raw_views(rest@) == rv.skip(out.len() as int),
                    piece_views(out@) == rv.take(out.len() as int).map_values(|p: RawPiece| piece_defaults(p)),
                decreases rest.len(),
            {
                let ghost r0 = rest@;
                let ghost k = out.len() as int;
                let p = rest.remove(0);
                assert(rest@ =~= r0.drop_first());
                assert(raw_views(r0)[0] == raw_piece_view(p));
                assert(rv[k] == raw_piece_view(p));
                assert(raw_views(rest@) =~= rv.skip(k + 1)) by {
                    assert forall|j: int| 0 <= j < rest@.len() implies #[trigger] raw_views(rest@)[j] == rv.skip(k + 1)[j] by {
                        assert(rest@[j] == r0[j + 1]);
                        assert(raw_views(r0)[j + 1] == rv.skip(k)[j + 1]);
                    }
                }
                let index: u64 = match p.0 {
                    Some(i) => i,
                    None => 0,
                };
                let t = (index, text_or_empty(p.1), text_or_empty(p.2), text_or_empty(p.3));
                let ghost before = out@;
                out.push(t);
                assert(piece_views(out@) =~= rv.take(k + 1).map_values(|p: RawPiece| piece_defaults(p))) by {
                    assert(rv.take(k + 1) =~= rv.take(k).push(rv[k]));
                    assert(out@ =~= before.push(t));
                    assert forall|j: int| 0 <= j < k + 1 implies #[trigger] piece_views(out@)[j]
                        == rv.take(k + 1).map_values(|p: RawPiece| piece_defaults(p))[j] by {
                        if j < k {
                            assert(piece_views(before)[j] == rv.take(k).map_values(|p: RawPiece| piece_defaults(p))[j]);
                        }
                    }
                }
            }
            assert(rv.take(n as int) =~= rv);
            Some((c, out))
        },
    }
}

/// A tool call being assembled: id, name, arguments so far.
pub type CallParts = (Seq<char>, Seq<char>, Seq<char>);

/// `calls` grown with empty calls to hold index `index`.
pub open spec fn grown(calls: Seq<CallParts>, index: nat) -> Seq<CallParts> {
    if calls.len() > index {
        calls
    } else {
        calls + Seq::new((index + 1 - calls.len()) as nat, |i: int| (Seq::<char>::empty(), Seq::<char>::empty(), Seq::<char>::empty()))
    }
}

/// One tool-call piece applied to the calls being assembled: a piece with an
/// id and a name starts (or restarts) the call at its index; a piece with
/// arguments adds them to that call.
pub open spec fn piece_step(calls: Seq<CallParts>, tc: (u64, Seq<char>, Seq<char>, Seq<char>)) -> (Seq<EventView>, Seq<CallParts>) {
    let (index, id, name, args) = tc;
    let starts = id.len() > 0 && name.len() > 0;
    let calls_a = if starts {
        let g = grown(calls, index as nat);
        g.update(index as int, (id, name, g[index as int].2))
    } else {
        calls
    };
    let ev_a = if starts { seq![EventView::Start(id, name)] } else { Seq::empty() };
    if args.len() > 0 {
        let calls_b = if calls_a.len() > index {
            calls_a.update(index as int, (calls_a[index as int].0, calls_a[index as int].1, calls_a[index as int].2 + args))
        } else {
            calls_a
        };
        let owner = if calls_a.len() > index { calls_a[index as int].0 } else { Seq::empty() };
        (ev_a.push(EventView::Delta(owner, args)), calls_b)
    } else {
        (ev_a, calls_a)
    }
}

/// The pieces applied in order.
pub open spec fn pieces_run(calls: Seq<CallParts>, tcs: Seq<(u64, Seq<char>, Seq<char>, Seq<char>)>) -> (Seq<EventView>, Seq<CallParts>)
    decreases tcs.len(),
{
    if tcs.len() == 0 {
        (Seq::empty(), calls)
    } else {
        let (e1, c1) = pieces_run(calls, tcs.drop_last());
        let (e2, c2) = piece_step(c1, tcs.last());
        (e1 + e2, c2)
    }
}

/// The end event of each call assembled, its arguments as compact JSON
/// (an empty object when they are not JSON).
pub open spec fn end_events(calls: Seq<CallParts>) -> Seq<EventView>
    decreases calls.len(),
{
    if calls.len() == 0 {
        Seq::empty()
    } else {
        end_events(calls.drop_last()).push(
            EventView::End(calls.last().0, calls.last().1, json_compact_text(calls.last().2)),
        )
    }
}

/// Every index of the pieces can be grown to.
pub open spec fn indices_fit(tcs: Seq<(u64, Seq<char>, Seq<char>, Seq<char>)>) -> bool {
    forall|k: int| 0 <= k < tcs.len() ==> (#[trigger] tcs[k]).0 < usize::MAX
}

/// What one line of the stream does: its events, the calls after it, and
/// whether it ends the stream. `None` when a tool-call index is too large to
/// grow to.
pub open spec fn line_step(calls: Seq<CallParts>, line: Seq<char>) -> Option<(Seq<EventView>, Seq<CallParts>, bool)> {
    if line.len() == 0 || line[0] == ':' || !starts_with(line, "data: "@) {
        Some((Seq::empty(), calls, false))
    } else {
        let data = line.skip(6);
        if data == "[DONE]"@ {
            Some((end_events(calls).push(EventView::Done), Seq::empty(), true))
        } else {
            match chunk_delta(data) {
                None => Some((Seq::empty(), calls, false)),
                Some((content, tcs)) => {
                    if !indices_fit(tcs) {
                        None
                    } else {
                        let e0 = match content {
                            Some(c) => if c.len() > 0 { seq![EventView::Token(c)] } else { Seq::empty() },
                            None => Seq::empty(),
                        };
                        let (e1, c1) = pieces_run(calls, tcs);
                        Some((e0 + e1, c1, false))
                    }
                },
            }
        }
    }
}

/// The decoder of a stream: text not yet cut into lines, the tool calls being
/// assembled, and whether the stream has ended.
pub struct SseDecoder {
    pending: String,
    calls: Vec<(String, String, String)>,
    finished: bool,
}

/// The value of an [`SseDecoder`].
pub ghost struct DecoderView {
    pub pending: Seq<char>,
    pub calls: Seq<CallParts>,
    pub finished: bool,
}

/// The parts of the calls as plain text.
pub open spec fn parts_view(v: Seq<(String, String, String)>) -> Seq<CallParts> {
    v.map_values(|c: (String, String, String)| (c.0@, c.1@, c.2@))
}

impl View for SseDecoder {
    type V = DecoderView;

    closed spec fn view(&self) -> DecoderView {
        DecoderView { pending: self.pending@, calls: parts_view(self.calls@), finished: self.finished }
    }
}

/// What decoding the complete lines of `d` gives: the events, and the decoder
/// after them; `None` when a line has a tool-call index too large to grow to.
pub open spec fn drain(d: DecoderView) -> Option<(Seq<EventView>, DecoderView)>
    decreases d.pending.len(),
{
    if d.finished {
        Some((Seq::empty(), d))
    } else {
        match find_char_from(d.pending, '\n', 0) {
            None => Some((Seq::empty(), d)),
            Some(i) => {
                proof {
                    lemma_find_char_from_range(d.pending, '\n', 0);
                }
                let line = trim(d.pending.take(i));
                let rest = d.pending.skip(i + 1);
                match line_step(d.calls, line) {
                    None => None,
                    Some((evs, calls2, done)) => {
                        let next = DecoderView { pending: rest, calls: calls2, finished: done };
                        match drain(next) {
                            None => None,
                            Some((more, last)) => Some((evs + more, last)),
                        }
                    },
                }
            },
        }
    }
}

fn copy_parts(c: &(String, String, String)) -> (r: (String, String, String))
    ensures
        (r.0@, r.1@, r.2@) == (c.0@, c.1@, c.2@),
{
    (owned(c.0.as_str()), owned(c.1.as_str()), owned(c.2.as_str()))
}

/// Whether every index of the pieces can be grown to.
fn all_fit(tcs: &Vec<(u64, String, String, String)>) -> (r: bool)
    ensures
        r == indices_fit(tcs@.map_values(|t: (u64, String, String, String)| (t.0, t.1@, t.2@, t.3@))),
{
    let ghost tv = tcs@.map_values(|t: (u64, String, String, String)| (t.0, t.1@, t.2@, t.3@));
    let mut k: usize = 0;
    while k < tcs.len()
        invariant
            k <= tcs.len(),
            tv == tcs@.map_values(|t: (u64, String, String, String)| (t.0, t.1@, t.2@, t.3@)),
            forall|j: int| 0 <= j < k ==> (#[trigger] tv[j]).0 < usize::MAX,
        decreases tcs.len() - k,
    {
        assert(tv[k as int].0 == tcs@[k as int].0);
        if tcs[k].0 >= usize::MAX as u64 {
            assert(!((tv[k as int]).0 < usize::MAX));
            return false;
        }
        k += 1;
    }
    true
}

impl SseDecoder {
    /// A decoder at the start of a stream.
    pub fn new() -> (r: Self)
        ensures
            r@ == (DecoderView { pending: Seq::empty(), calls: Seq::empty(), finished: false }),
    {
        let r = SseDecoder { pending: String::new(), calls: Vec::new(), finished: false };
        assert(parts_view(r.calls@) =~= Seq::<CallParts>::empty());
        r
    }

    /// Whether the stream has ended with `[DONE]`.
    pub fn is_finished(&self) -> (r: bool)
        ensures
            r == self@.finished,
    {
        self.finished
    }

    /// Applies one tool-call piece.
    fn apply_piece(&mut self, tc: (u64, String, String, String), out: &mut Vec<StreamEvent>)
        requires
            tc.0 < usize::MAX,
        ensures
            ({
                let (evs, calls2) = piece_step(parts_view(old(self).calls@), (tc.0, tc.1@, tc.2@, tc.3@));
                &&& events_view(final(out)@) == events_view(old(out)@) + evs
                &&& parts_view(final(self).calls@) == calls2
            }),
            final(self).pending == old(self).pending,
            final(self).finished == old(self).finished,
    {
        let (index, id, name, args) = tc;
        let ghost c0 = parts_view(self.calls@);
        let ghost e0 = events_view(out@);
        let index = index as usize;
        let starts = !id.as_str().is_empty() && !name.as_str().is_empty();
        if starts {
            while self.calls.len() <= index
                invariant
                    index < usize::MAX,
                    self.pending == old(self).pending,
                    self.finished == old(self).finished,
                    parts_view(self.calls@) == grown(c0, index as nat).take(self.calls.len() as int),
                    c0.len() <= self.calls.len() || parts_view(self.calls@) == c0,
                    self.calls.len() <= index + 1 || parts_view(self.calls@) == c0,
                decreases index + 1 - self.calls.len(),
            {
                let ghost before = self.calls@;
                self.calls.push((String::new(), String::new(), String::new()));
                assert(parts_view(self.calls@) =~= grown(c0, index as nat).take(self.calls.len() as int));
            }
            assert(parts_view(self.calls@) =~= grown(c0, index as nat));
            let old_args = owned(self.calls[index].2.as_str());
            let ghost g = parts_view(self.calls@);
            let entry = (owned(id.as_str()), owned(name.as_str()), old_args);
            let calls = &mut self.calls;
            calls.set(index, entry);
            assert(parts_view(self.calls@) =~= g.update(index as int, (id@, name@, g[index as int].2)));
            push_event(out, StreamEvent::ToolCallStart { id: owned(id.as_str()), name: owned(name.as_str()) });
        }
        if !args.as_str().is_empty() {
            let ghost ca = parts_view(self.calls@);
            let owner = if self.calls.len() > index { owned(self.calls[index].0.as_str()) } else { String::new() };
            if self.calls.len() > index {
                let (a, b, mut c) = copy_parts(&self.calls[index]);
                push_str(&mut c, args.as_str());
                let calls = &mut self.calls;
                calls.set(index, (a, b, c));
                assert(parts_view(self.calls@) =~= ca.update(index as int, (ca[index as int].0, ca[index as int].1, ca[index as int].2 + args@)));
            }
            push_event(out, StreamEvent::ToolCallDelta { id: owner, arguments_delta: args });
        }
        proof {
            let (evs, calls2) = piece_step(c0, (tc.0, tc.1@, tc.2@, tc.3@));
            assert(events_view(out@) =~= e0 + evs);
        }
    }

    /// The end events of the calls assembled; the calls are then forgotten.
    fn end_calls(&mut self, out: &mut Vec<StreamEvent>)
        ensures
            events_view(final(out)@) == events_view(old(out)@) + end_events(parts_view(old(self).calls@)),
            parts_view(final(self).calls@) == Seq::<CallParts>::empty(),
            final(self).pending == old(self).pending,
            final(self).finished == old(self).finished,
    {
        let ghost cv = parts_view(self.calls@);
        let ghost e0 = events_view(out@);
        let mut i: usize = 0;
        while i < self.calls.len()
            invariant
                i <= self.calls.len(),
                cv == parts_view(self.calls@),
                events_view(out@) == e0 + end_events(cv.take(i as int)),
            decreases self.calls.len() - i,
        {
            let c = &self.calls[i];
            assert(cv.take(i + 1).drop_last() =~= cv.take(i as int));
            assert(cv.take(i + 1).last() == (c.0@, c.1@, c.2@));
            let args = json_compact(c.2.as_str());
            push_event(out, StreamEvent::ToolCallEnd { id: owned(c.0.as_str()), name: owned(c.1.as_str()), arguments: args });
            assert(events_view(out@) =~= e0 + end_events(cv.take(i + 1)));
            i += 1;
        }
        assert(cv.take(self.calls.len() as int) =~= cv);
        self.calls = Vec::new();
        assert(parts_view(self.calls@) =~= Seq::<CallParts>::empty());
    }

    /// Takes in one line of the stream; `None` when a tool-call index is too
    /// large, and then nothing has changed.
    fn take_line(&mut self, line: &[char], out: &mut Vec<StreamEvent>) -> (r: Option<bool>)
        ensures
            match line_step(parts_view(old(self).calls@), line@) {
                Some((evs, calls2, done)) => r == Some(done) && events_view(final(out)@) == events_view(old(out)@) + evs
                    && parts_view(final(self).calls@) == calls2,
                None => r is None && final(self).calls@ == old(self).calls@ && final(out)@ == old(out)@,
            },
            final(self).pending == old(self).pending,
            final(self).finished == old(self).finished,
    {
        let prefix = chars_of("data: ");
        proof {
            reveal_strlit("data: ");
        }
        if line.len() == 0 || line[0] == ':' || !starts_with_exec(line, prefix.as_slice()) {
            return Some(false);
        }
        let data = string_of(slice_vec(line, 6, line.len()).as_slice());
        assert(data@ =~= line@.skip(6));
        if str_eq(data.as_str(), "[DONE]") {
            self.end_calls(out);
            push_event(out, StreamEvent::Done);
            return Some(true);
        }
        match read_chunk(data.as_str()) {
            None => Some(false),
            Some((content, tcs)) => {
                if !all_fit(&tcs) {
                    return None;
                }
                let ghost tv = tcs@.map_values(|t: (u64, String, String, String)| (t.0, t.1@, t.2@, t.3@));
                assert(indices_fit(tv));
                let ghost e0 = events_view(out@);
                let ghost c0 = parts_view(self.calls@);
                match content {
                    Some(c) => {
                        if !c.as_str().is_empty() {
                            push_event(out, StreamEvent::Token(c));
                        }
                    },
                    None => {},
                }
                let ghost e1 = events_view(out@);
                let mut j: usize = 0;
                let n = tcs.len();
                assert(tv.len() == n);
                let mut rest = tcs;
                assert(tv.take(0) =~= Seq::<(u64, Seq<char>, Seq<char>, Seq<char>)>::empty());
                while rest.len() > 0
                    invariant
                        j + rest.len() == tv.len(),
                        tv.len() == n,
                        indices_fit(tv),
                        rest@.map_values(|t: (u64, String, String, String)| (t.0, t.1@, t.2@, t.3@)) == tv.skip(j as int),
                        events_view(out@) == e1 + pieces_run(c0, tv.take(j as int)).0,
                        parts_view(self.calls@) == pieces_run(c0, tv.take(j as int)).1,
                        self.pending == old(self).pending,
                        self.finished == old(self).finished,
                    decreases rest.len(),
                {
                    let ghost r0 = rest@;
                    let tc = rest.remove(0);
                    assert(rest@ =~= r0.drop_first());
                    assert(r0.map_values(|t: (u64, String, String, String)| (t.0, t.1@, t.2@, t.3@))[0] == (tc.0, tc.1@, tc.2@, tc.3@));
                    assert(tv.skip(j as int)[0] == (tc.0, tc.1@, tc.2@, tc.3@));
                    assert(tv[j as int] == (tc.0, tc.1@, tc.2@, tc.3@));
                    assert(rest@.map_values(|t: (u64, String, String, String)| (t.0, t.1@, t.2@, t.3@)) =~= r0.map_values(
                        |t: (u64, String, String, String)| (t.0, t.1@, t.2@, t.3@),
                    ).drop_first());
                    assert(tv.skip(j as int).drop_first() =~= tv.skip(j + 1));
                    self.apply_piece(tc, out);
                    assert(tv.take(j + 1).drop_last() =~= tv.take(j as int));
                    assert(tv.take(j + 1).last() == tv[j as int]);
                    j += 1;
                }
                assert(tv.take(j as int) =~= tv);
                Some(false)
            },
        }
    }

    /// Takes in a chunk of the stream and gives the events of the lines it
    /// completes; after `[DONE]` the rest is ignored. `None` when a line has a
    /// tool-call index too large to grow to.
    pub fn push_chunk(&mut self, chunk: &str) -> (r: Option<Vec<StreamEvent>>)
        ensures
            match drain(DecoderView { pending: old(self)@.pending + chunk@, ..old(self)@ }) {
                Some((evs, d)) => r matches Some(v) && events_view(v@) == evs && final(self)@ == d,
                None => r is None,
            },
    {
        push_str(&mut self.pending, chunk);
        let mut out: Vec<StreamEvent> = Vec::new();
        let ghost start = self@;
        assert(start == (DecoderView { pending: old(self)@.pending + chunk@, ..old(self)@ }));
        assert(events_view(out@) =~= Seq::<EventView>::empty());
        proof {
            if drain(start) is Some {
                let (evs, d) = drain(start)->0;
                assert(evs =~= events_view(out@) + evs);
            }
        }
        loop
            invariant
                start == (DecoderView { pending: old(self)@.pending + chunk@, ..old(self)@ }),
                drain(start) matches Some((evs, d)) ==> (drain(self@) matches Some((evs2, d2)) && evs == events_view(out@) + evs2 && d == d2),
                drain(start) is None ==> drain(self@) is None,
            decreases self.pending@.len(),
        {
            if self.finished {
                assert(drain(self@) == Some((Seq::<EventView>::empty(), self@)));
                assert(events_view(out@) + Seq::<EventView>::empty() =~= events_view(out@));
                return Some(out);
            }
            let cs = chars_of(self.pending.as_str());
            match find_char_exec(cs.as_slice(), '\n', 0) {
                None => {
                    assert(drain(self@) == Some((Seq::<EventView>::empty(), self@)));
                    assert(events_view(out@) + Seq::<EventView>::empty() =~= events_view(out@));
                    return Some(out);
                },
                Some(i) => {
                    proof {
                        lemma_find_char_from_range(cs@, '\n', 0);
                    }
                    let n = cs.len();
                    assert(i < n);
                    let raw = slice_vec(cs.as_slice(), 0, i);
                    let line = trim_exec(raw.as_slice());
                    assert(raw@ =~= cs@.take(i as int));
                    let rest = string_of(slice_vec(cs.as_slice(), i + 1, cs.len()).as_slice());
                    assert(rest@ =~= cs@.skip(i + 1));
                    let ghost before_out = events_view(out@);
                    let ghost before = self@;
                    match self.take_line(line.as_slice(), &mut out) {
                        None => {
                            assert(drain(before) is None);
                            return None;
                        },
                        Some(done) => {
                            self.pending = rest;
                            self.finished = done;
                            proof {
                                let (evs, calls2, d) = line_step(before.calls, line@)->0;
                                assert(self@ == DecoderView { pending: rest@, calls: calls2, finished: d });
                                if drain(self@) is Some {
                                    let (more, last) = drain(self@)->0;
                                    assert(drain(before) == Some((evs + more, last)));
                                    assert(before_out + (evs + more) =~= events_view(out@) + more);
                                }
                            }
                        },
                    }
                },
            }
        }
    }

    /// Ends a stream that stopped without `[DONE]`: the end of each call
    /// assembled, then the end of the answer; nothing when it already ended.
    pub fn finish(&mut self) -> (r: Vec<StreamEvent>)
        ensures
            old(self)@.finished ==> events_view(r@) == Seq::<EventView>::empty(),
            !old(self)@.finished ==> events_view(r@) == end_events(old(self)@.calls).push(EventView::Done),
            final(self)@.finished,
    {
        let mut out: Vec<StreamEvent> = Vec::new();
        if self.finished {
            assert(events_view(out@) =~= Seq::<EventView>::empty());
            return out;
        }
        assert(events_view(out@) =~= Seq::<EventView>::empty());
        self.end_calls(&mut out);
        push_event(&mut out, StreamEvent::Done);
        self.finished = true;
        out
    }
}

// ───────────────────────────── chunking ─────────────────────────────

/// A character found in `p` is found at the same place in `p + b`.
proof fn lemma_find_char_prefix(p: Seq<char>, b: Seq<char>, c: char, k: int)
    requires
        0 <= k,
        find_char_from(p, c, k) is Some,
    ensures
        find_char_from(p + b, c, k) == find_char_from(p, c, k),
    decreases p.len() - k,
{
    lemma_find_char_from_range(p, c, k);
    if k < p.len() && p[k] != c {
        lemma_find_char_prefix(p, b, c, k + 1);
    }
}

/// Decoding `d` with `b` added to its pending text gives what decoding `d`
/// gives, followed by what decoding the decoder after it, with `b` added to
/// its pending text, gives.
proof fn lemma_drain_append(d: DecoderView, b: Seq<char>)
    ensures
        match drain(d) {
            Some((e1, d1)) => drain(DecoderView { pending: d.pending + b, ..d }) == match drain(
                DecoderView { pending: d1.pending + b, ..d1 },
            ) {
                Some((e2, d2)) => Some((e1 + e2, d2)),
                None => None,
            },
            None => drain(DecoderView { pending: d.pending + b, ..d }) is None,
        },
    decreases d.pending.len(),
{
    let db = DecoderView { pending: d.pending + b, ..d };
    if d.finished {
        assert(Seq::<EventView>::empty() + Seq::<EventView>::empty() =~= Seq::<EventView>::empty());
    } else {
        match find_char_from(d.pending, '\n', 0) {
            None => {
                match drain(db) {
                    Some((e2, d2)) => {
                        assert(Seq::<EventView>::empty() + e2 =~= e2);
                    },
                    None => {},
                }
            },
            Some(i) => {
                lemma_find_char_from_range(d.pending, '\n', 0);
                lemma_find_char_prefix(d.pending, b, '\n', 0);
                assert(db.pending.take(i) =~= d.pending.take(i));
                assert(db.pending.skip(i + 1) =~= d.pending.skip(i + 1) + b);
                let line = trim(d.pending.take(i));
                match line_step(d.calls, line) {
                    None => {},
                    Some((evs, calls2, done)) => {
                        let next = DecoderView { pending: d.pending.skip(i + 1), calls: calls2, finished: done };
                        lemma_drain_append(next, b);
                        assert(DecoderView { pending: next.pending + b, ..next } == DecoderView {
                            pending: db.pending.skip(i + 1),
                            calls: calls2,
                            finished: done,
                        });
                        match drain(next) {
                            None => {},
                            Some((more, last)) => {
                                match drain(DecoderView { pending: last.pending + b, ..last }) {
                                    Some((e2, d2)) => {
                                        assert(evs + (more + e2) =~= (evs + more) + e2);
                                    },
                                    None => {},
                                }
                            },
                        }
                    },
                }
            },
        }
    }
}

/// How a stream is cut into chunks does not change what it decodes to:
/// pushing `a` and then `b` gives, in all, the events that pushing `a + b`
/// at once gives, and leaves the same decoder; one fails exactly when the
/// other does.
pub proof fn law_chunking_is_invisible(d: DecoderView, a: Seq<char>, b: Seq<char>)
    ensures
        match drain(DecoderView { pending: d.pending + a, ..d }) {
            Some((e1, d1)) => drain(DecoderView { pending: d.pending + (a + b), ..d }) == match drain(
                DecoderView { pending: d1.pending + b, ..d1 },
            ) {
                Some((e2, d2)) => Some((e1 + e2, d2)),
                None => None,
            },
            None => drain(DecoderView { pending: d.pending + (a + b), ..d }) is None,
        },
{
    let da = DecoderView { pending: d.pending + a, ..d };
    lemma_drain_append(da, b);
    assert(d.pending + (a + b) =~= da.pending + b);
    assert(DecoderView { pending: d.pending + (a + b), ..d } == DecoderView { pending: da.pending + b, ..da });
}


/// The argument fragments of tool-call pieces, laid end to end.
pub open spec fn fragments(tcs: Seq<(u64, Seq<char>, Seq<char>, Seq<char>)>) -> Seq<char>
    decreases tcs.len(),
{
    if tcs.len() == 0 {
        Seq::empty()
    } else {
        fragments(tcs.drop_last()) + tcs.last().3
    }
}

/// The pieces all go on the call at `index` without starting a new one (each
/// lacks an id or a name).
pub open spec fn continue_call(tcs: Seq<(u64, Seq<char>, Seq<char>, Seq<char>)>, index: u64) -> bool {
    forall|k: int| 0 <= k < tcs.len() ==> (#[trigger] tcs[k]).0 == index && (tcs[k].1.len() == 0 || tcs[k].2.len() == 0)
}

/// Arguments streamed in fragments are joined: pieces that go on a call being
/// assembled leave its id and name as they were and its arguments followed by
/// all their fragments, in order; no other call changes.
pub proof fn law_argument_fragments_join(
    calls: Seq<CallParts>,
    tcs: Seq<(u64, Seq<char>, Seq<char>, Seq<char>)>,
    index: u64,
)
    requires
        index < calls.len(),
        continue_call(tcs, index),
    ensures
        pieces_run(calls, tcs).1 == calls.update(
            index as int,
            (calls[index as int].0, calls[index as int].1, calls[index as int].2 + fragments(tcs)),
        ),
    decreases tcs.len(),
{
    if tcs.len() == 0 {
        assert(calls[index as int].2 + Seq::<char>::empty() =~= calls[index as int].2);
        assert(calls.update(index as int, calls[index as int]) =~= calls);
    } else {
        let front = tcs.drop_last();
        assert(continue_call(front, index)) by {
            assert forall|k: int| 0 <= k < front.len() implies (#[trigger] front[k]).0 == index
                && (front[k].1.len() == 0 || front[k].2.len() == 0) by {
                assert(front[k] == tcs[k]);
            }
        }
        law_argument_fragments_join(calls, front, index);
        let t = tcs.last();
        assert(t == tcs[tcs.len() - 1]);
        let c1 = pieces_run(calls, front).1;
        let i = index as int;
        if t.3.len() > 0 {
            assert(piece_step(c1, t).1 =~= c1.update(i, (c1[i].0, c1[i].1, c1[i].2 + t.3)));
        } else {
            assert(t.3 =~= Seq::<char>::empty());
        }
        assert(calls[i].2 + fragments(front) + t.3 =~= calls[i].2 + fragments(tcs));
        assert(piece_step(c1, t).1 =~= calls.update(i, (calls[i].0, calls[i].1, calls[i].2 + fragments(tcs))));
    }
}

} // verus!
