//! The transcript: its entries, how far it is scrolled, and the lines it
//! shows.
use vstd::prelude::*;
use std::time::Duration;
use crate::text::{
    chars_of, lines, lines_exec, owned, push_str, string_of, string_views, take_chars, take_chars_exec, utf8_len,
    views,
};
use crate::tui::chat::{chats_view, ChatMessage, ChatView};
use crate::tui::header::{repeat, repeat_char};
use crate::tui::markdown::{markdown_events, md_lines, MarkdownRenderer};
use crate::tui::spinner::{elapsed_text, fmt_elapsed};
use crate::tui::styled::{
    fg, fg_bold, lines_view, no_style, plain_style, push_line, push_span, span, span_str, spans_view, tinted,
    tinted_bold, SpanStyle, SpanView, StyledSpan,
};
use crate::tui::theme::{family_color, family_tint, ERROR, PRIMARY, SPINNER, SUCCESS, TEXT, TEXT_DIM};
use crate::tui::tool_block::{
    family_glyph, family_label, family_of, glyph_of, label_of, push_wrapped_line, tool_family_for_name,
    truncate_chars, truncated_chars, wrap_lines, ToolBlock, ToolBlockView, ToolFamily, ToolState, ToolStateView, state_elapsed,
};

verus! {

/// The transcript and its scrolling.
pub struct MessagesArea {
    messages: Vec<ChatMessage>,
    scroll_offset: usize,
    auto_scroll: bool,
    markdown: MarkdownRenderer,
}

/// The value of a [`MessagesArea`]: its entries, how many lines it is
/// scrolled up, and whether it follows the newest line.
pub ghost struct MessagesView {
    pub messages: Seq<ChatView>,
    pub scroll_offset: nat,
    pub auto_scroll: bool,
}

impl View for MessagesArea {
    type V = MessagesView;

    closed spec fn view(&self) -> MessagesView {
        MessagesView {
            messages: chats_view(self.messages@),
            scroll_offset: self.scroll_offset as nat,
            auto_scroll: self.auto_scroll,
        }
    }
}

/// The transcript with `m` added: back at the newest line when it follows it.
pub open spec fn appended(a: MessagesView, m: ChatView) -> MessagesView {
    MessagesView {
        messages: a.messages.push(m),
        scroll_offset: if a.auto_scroll { 0 } else { a.scroll_offset },
        auto_scroll: a.auto_scroll,
    }
}

/// The entries with the last one changed by `f` when it is a tool call.
pub open spec fn with_last_tool(ms: Seq<ChatView>, f: spec_fn(ToolBlockView) -> ToolBlockView) -> Seq<ChatView> {
    if ms.len() > 0 {
        match ms.last() {
            ChatView::ToolCall(b) => ms.update(ms.len() - 1, ChatView::ToolCall(f(b))),
            _ => ms,
        }
    } else {
        ms
    }
}

/// The entries with text added to the last one when it is the assistant's,
/// else with a new entry of the assistant.
pub open spec fn text_appended(ms: Seq<ChatView>, text: Seq<char>) -> Seq<ChatView> {
    if ms.len() > 0 {
        match ms.last() {
            ChatView::Assistant(t) => ms.update(ms.len() - 1, ChatView::Assistant(t + text)),
            _ => ms.push(ChatView::Assistant(text)),
        }
    } else {
        ms.push(ChatView::Assistant(text))
    }
}

/// The transcript scrolled up by `n` lines (at most to the largest offset),
/// no longer following the newest line.
pub open spec fn scrolled_up(a: MessagesView, n: nat) -> MessagesView {
    MessagesView { scroll_offset: crate::tui::styled::capped(a.scroll_offset + n), auto_scroll: false, ..a }
}

/// The transcript scrolled down by `n` lines; reaching the newest line, it
/// follows it again.
pub open spec fn scrolled_down(a: MessagesView, n: nat) -> MessagesView {
    if n >= a.scroll_offset {
        MessagesView { scroll_offset: 0, auto_scroll: true, ..a }
    } else {
        MessagesView { scroll_offset: (a.scroll_offset - n) as nat, ..a }
    }
}

impl MessagesArea {
    /// An empty transcript that follows the newest line.
    pub fn new() -> (r: Self)
        ensures
            r@.messages == Seq::<ChatView>::empty(),
            r@.scroll_offset == 0,
            r@.auto_scroll,
    {
        let r = MessagesArea {
            messages: Vec::new(),
            scroll_offset: 0,
            auto_scroll: true,
            markdown: MarkdownRenderer::new(),
        };
        assert(chats_view(r.messages@) =~= Seq::<ChatView>::empty());
        r
    }

    fn push_message(&mut self, m: ChatMessage)
        ensures
            final(self)@ == appended(old(self)@, m@),
    {
        let ghost before = self.messages@;
        self.messages.push(m);
        assert(chats_view(self.messages@) =~= chats_view(before).push(m@));
        if self.auto_scroll {
            self.scroll_offset = 0;
        }
    }

    /// Adds a message of the user.
    pub fn push_user(&mut self, text: &str)
        ensures
            final(self)@ == appended(old(self)@, ChatView::User(text@)),
    {
        self.push_message(ChatMessage::User(owned(text)));
    }

    /// Adds a message of the assistant.
    pub fn push_assistant(&mut self, text: &str)
        ensures
            final(self)@ == appended(old(self)@, ChatView::Assistant(text@)),
    {
        self.push_message(ChatMessage::Assistant(owned(text)));
    }

    /// Adds a tool call.
    pub fn push_tool(&mut self, block: ToolBlock)
        ensures
            final(self)@ == appended(old(self)@, ChatView::ToolCall(block@)),
    {
        self.push_message(ChatMessage::ToolCall(block));
    }

    /// Adds a notice of the system.
    pub fn push_system(&mut self, text: &str)
        ensures
            final(self)@ == appended(old(self)@, ChatView::System(text@)),
    {
        self.push_message(ChatMessage::System(owned(text)));
    }

    /// Adds an error.
    pub fn push_error(&mut self, text: &str)
        ensures
            final(self)@ == appended(old(self)@, ChatView::Error(text@)),
    {
        self.push_message(ChatMessage::Error(owned(text)));
    }

    /// Takes out the last entry when it is a tool call.
    fn take_last_tool(&mut self) -> (r: Option<ToolBlock>)
        ensures
            match r {
                Some(b) => old(self)@.messages.len() > 0
                    && old(self)@.messages.last() == ChatView::ToolCall(b@)
                    && final(self)@ == (MessagesView { messages: old(self)@.messages.drop_last(), ..old(self)@ }),
                None => (old(self)@.messages.len() == 0 || !(old(self)@.messages.last() is ToolCall))
                    && final(self)@ == old(self)@,
            },
    {
        let n = self.messages.len();
        if n == 0 {
            return None;
        }
        let is_tool = match &self.messages[n - 1] {
            ChatMessage::ToolCall(_) => true,
            _ => false,
        };
        if !is_tool {
            return None;
        }
        let ghost before = self.messages@;
        let last = self.messages.pop();
        assert(chats_view(self.messages@) =~= chats_view(before).drop_last());
        match last {
            Some(ChatMessage::ToolCall(b)) => Some(b),
            _ => None,
        }
    }

    /// Puts a tool call back at the end.
    fn put_back(&mut self, b: ToolBlock)
        ensures
            final(self)@ == (MessagesView { messages: old(self)@.messages.push(ChatView::ToolCall(b@)), ..old(self)@ }),
    {
        let ghost before = self.messages@;
        self.messages.push(ChatMessage::ToolCall(b));
        assert(chats_view(self.messages@) =~= chats_view(before).push(ChatView::ToolCall(b@)));
    }

    /// Sets the arguments of the last entry when it is a tool call.
    pub fn update_last_tool_args(&mut self, args: &str)
        ensures
            final(self)@ == (MessagesView {
                messages: with_last_tool(old(self)@.messages, |b: ToolBlockView| ToolBlockView { arguments: args@, ..b }),
                ..old(self)@
            }),
    {
        match self.take_last_tool() {
            Some(mut b) => {
                b.arguments = owned(args);
                self.put_back(b);
                assert(self@.messages =~= with_last_tool(old(self)@.messages, |b: ToolBlockView| ToolBlockView { arguments: args@, ..b }));
            },
            None => {},
        }
    }

    /// Records the output and the duration of the last entry when it is a
    /// tool call that succeeded.
    pub fn finish_last_tool(&mut self, output: &str, duration: Duration)
        ensures
            final(self)@ == (MessagesView {
                messages: with_last_tool(
                    old(self)@.messages,
                    |b: ToolBlockView| ToolBlockView { output: output@, state: ToolStateView::Success(duration), ..b },
                ),
                ..old(self)@
            }),
    {
        match self.take_last_tool() {
            Some(mut b) => {
                b.output = owned(output);
                b.state = ToolState::Success(duration);
                self.put_back(b);
                assert(self@.messages =~= with_last_tool(
                    old(self)@.messages,
                    |b: ToolBlockView| ToolBlockView { output: output@, state: ToolStateView::Success(duration), ..b },
                ));
            },
            None => {},
        }
    }

    /// Records the error of the last entry when it is a tool call.
    pub fn mark_last_tool_error(&mut self, error: &str)
        ensures
            final(self)@ == (MessagesView {
                messages: with_last_tool(
                    old(self)@.messages,
                    |b: ToolBlockView| ToolBlockView { state: ToolStateView::Error(error@), ..b },
                ),
                ..old(self)@
            }),
    {
        match self.take_last_tool() {
            Some(mut b) => {
                b.state = ToolState::Error(owned(error));
                self.put_back(b);
                assert(self@.messages =~= with_last_tool(
                    old(self)@.messages,
                    |b: ToolBlockView| ToolBlockView { state: ToolStateView::Error(error@), ..b },
                ));
            },
            None => {},
        }
    }

    /// Whether the last entry is the assistant's.
    pub fn last_is_assistant(&self) -> (r: bool)
        ensures
            r == (self@.messages.len() > 0 && self@.messages.last() is Assistant),
    {
        let n = self.messages.len();
        if n == 0 {
            false
        } else {
            match &self.messages[n - 1] {
                ChatMessage::Assistant(_) => true,
                _ => false,
            }
        }
    }

    /// Adds streamed text to the assistant's last message, or starts one.
    pub fn append_to_last(&mut self, text: &str)
        ensures
            final(self)@ == (MessagesView {
                messages: text_appended(old(self)@.messages, text@),
                scroll_offset: if old(self)@.auto_scroll { 0 } else { old(self)@.scroll_offset },
                ..old(self)@
            }),
    {
        let ghost before = self.messages@;
        if self.last_is_assistant() {
            let last = self.messages.pop();
            match last {
                Some(ChatMessage::Assistant(mut t)) => {
                    push_str(&mut t, text);
                    self.messages.push(ChatMessage::Assistant(t));
                },
                _ => {},
            }
            assert(chats_view(self.messages@) =~= text_appended(chats_view(before), text@));
        } else {
            self.messages.push(ChatMessage::Assistant(owned(text)));
            assert(chats_view(self.messages@) =~= text_appended(chats_view(before), text@));
        }
        if self.auto_scroll {
            self.scroll_offset = 0;
        }
    }

    /// Removes every entry and follows the newest line again.
    pub fn clear(&mut self)
        ensures
            final(self)@ == (MessagesView { messages: Seq::empty(), scroll_offset: 0, auto_scroll: true }),
    {
        self.messages = Vec::new();
        self.scroll_offset = 0;
        self.auto_scroll = true;
        assert(chats_view(self.messages@) =~= Seq::<ChatView>::empty());
    }

    /// Scrolls up by `lines` lines, no longer following the newest line.
    pub fn scroll_up(&mut self, lines: usize)
        ensures
            final(self)@ == scrolled_up(old(self)@, lines as nat),
    {
        self.scroll_offset = self.scroll_offset.saturating_add(lines);
        self.auto_scroll = false;
    }

    /// Scrolls down by `lines` lines; reaching the newest line, follows it
    /// again.
    pub fn scroll_down(&mut self, lines: usize)
        ensures
            final(self)@ == scrolled_down(old(self)@, lines as nat),
    {
        if lines >= self.scroll_offset {
            self.scroll_offset = 0;
            self.auto_scroll = true;
        } else {
            self.scroll_offset = self.scroll_offset - lines;
        }
    }

    /// Goes back to the newest line and follows it.
    pub fn scroll_to_bottom(&mut self)
        ensures
            final(self)@ == (MessagesView { scroll_offset: 0, auto_scroll: true, ..old(self)@ }),
    {
        self.scroll_offset = 0;
        self.auto_scroll = true;
    }

    /// The entries, oldest first.
    pub fn messages(&self) -> (r: &[ChatMessage])
        ensures
            chats_view(r@) == self@.messages,
    {
        self.messages.as_slice()
    }
}


/// `a - b`, or zero when `b` is larger.
pub open spec fn sat_sub(a: nat, b: nat) -> nat {
    if a >= b { (a - b) as nat } else { 0 }
}

/// A text as the transcript wraps it in `w` columns: each of its lines
/// (`str::lines`) wrapped; the text whole when the width is zero; one empty
/// line when nothing is left.
pub open spec fn wrapped_by_lines(text: Seq<char>, w: nat) -> Seq<Seq<char>> {
    if w == 0 {
        seq![text]
    } else {
        let r = wrap_lines(lines(text), w);
        if r.len() == 0 {
            seq![Seq::<char>::empty()]
        } else {
            r
        }
    }
}

/// Lines of two pieces: a prefix (`first` on the first line, `rest` on the
/// others) and a wrapped piece of text.
pub open spec fn prefixed(ws: Seq<Seq<char>>, first: Seq<char>, rest: Seq<char>, pst: SpanStyle, tst: SpanStyle) -> Seq<Seq<SpanView>> {
    Seq::new(ws.len(), |i: int| seq![(if i == 0 { first } else { rest }, pst), (ws[i], tst)])
}

/// The style of a notice of the system.
pub open spec fn system_style() -> SpanStyle {
    SpanStyle { italic: true, ..tinted(TEXT_DIM) }
}

/// The bytes of the header of an expanded tool call.
pub open spec fn tool_header(f: ToolFamily) -> Seq<char> {
    glyph_of(f) + " "@ + label_of(f) + " "@
}

/// The mark and the colour of a call's state.
pub open spec fn state_look(st: ToolStateView) -> (Seq<char>, crate::tui::styled::Tint) {
    match st {
        ToolStateView::Running => ("⏳"@, SPINNER),
        ToolStateView::Success(_) => ("✓"@, SUCCESS),
        ToolStateView::Error(_) => ("✗"@, ERROR),
    }
}

/// The one line of a collapsed tool call: its family, its arguments cut to
/// forty characters, and its state (with its duration `elapsed` when it
/// succeeded).
pub open spec fn collapsed_tool(b: ToolBlockView, elapsed: Seq<char>) -> Seq<SpanView> {
    let f = family_of(b.name);
    let status = match b.state {
        ToolStateView::Running => " ⏳"@,
        ToolStateView::Success(_) => " ✓ "@ + elapsed,
        ToolStateView::Error(_) => " ✗"@,
    };
    seq![
        ("  "@ + glyph_of(f) + " "@ + label_of(f) + ": "@, tinted_bold(family_tint(f))),
        (truncated_chars(b.arguments, 40), tinted(TEXT_DIM)),
        (status, tinted(state_look(b.state).1)),
    ]
}

/// The bottom border of an expanded tool call, with its state.
pub open spec fn tool_bottom(b: ToolBlockView, elapsed: Seq<char>) -> Seq<SpanView> {
    let dur = match b.state {
        ToolStateView::Success(_) => " "@ + elapsed,
        _ => Seq::empty(),
    };
    seq![("  ╰── "@ + state_look(b.state).0 + dur + " "@, tinted(state_look(b.state).1))]
}

/// The lines of a tool call, `cw` columns being available and `elapsed`
/// being how its duration is written: one line when it is collapsed; else a
/// top border with its family, its arguments, its output (the first 500
/// characters, and a mark when there are more), its error, and a bottom
/// border with its state.
pub open spec fn tool_lines(b: ToolBlockView, cw: nat, elapsed: Seq<char>) -> Seq<Seq<SpanView>> {
    let f = family_of(b.name);
    if b.collapsed {
        seq![collapsed_tool(b, elapsed)]
    } else {
        seq![tool_top(f, cw)] + tool_body(b, sat_sub(cw, 6), family_tint(f)) + seq![tool_bottom(b, elapsed)]
    }
}

/// The lines of one entry, `cw` columns being available: `md` being the
/// lines of an assistant's Markdown and `elapsed` how a tool call's duration
/// is written.
pub open spec fn entry_lines(m: ChatView, cw: nat, md: Seq<Seq<SpanView>>, elapsed: Seq<char>) -> Seq<Seq<SpanView>> {
    match m {
        ChatView::User(t) => prefixed(wrapped_by_lines(t, sat_sub(cw, 2)), "┃ "@, "  "@, tinted_bold(PRIMARY), tinted(TEXT)),
        ChatView::Assistant(_) => md.map_values(|l: Seq<SpanView>| seq![("  "@, no_style())] + l),
        ChatView::ToolCall(b) => tool_lines(b, cw, elapsed),
        ChatView::System(t) => prefixed(wrapped_by_lines(t, sat_sub(cw, 2)), "  "@, "  "@, tinted(TEXT_DIM), system_style()),
        ChatView::Error(t) => prefixed(wrapped_by_lines(t, sat_sub(cw, 4)), "✗ "@, "  "@, tinted(ERROR), tinted(ERROR)),
    }
}

/// `md` and `elapsed` are what rendering an entry gives: the lines of the
/// Markdown of an assistant's message, and the duration of a tool call
/// written out (neither matters to the other entries).
pub open spec fn entry_fits(m: ChatView, md: Seq<Seq<SpanView>>, elapsed: Seq<char>) -> bool {
    &&& (m matches ChatView::Assistant(t) ==> md == md_lines(markdown_events(t)))
    &&& (m matches ChatView::ToolCall(b) ==> elapsed == state_elapsed(b.state))
}

/// The lines of the entries, one after the other, with what rendering each
/// gave (`mds` and `els` are as long as `ms`).
pub open spec fn entries_lines(ms: Seq<ChatView>, cw: nat, mds: Seq<Seq<Seq<SpanView>>>, els: Seq<Seq<char>>) -> Seq<Seq<SpanView>>
    decreases ms.len(),
{
    if ms.len() == 0 {
        Seq::empty()
    } else {
        entries_lines(ms.drop_last(), cw, mds.drop_last(), els.drop_last()) + entry_lines(ms.last(), cw, mds.last(), els.last())
    }
}

/// The lines of the transcript in a line `width` columns wide; a prompt when
/// there is no entry.
pub open spec fn transcript(ms: Seq<ChatView>, width: nat, mds: Seq<Seq<Seq<SpanView>>>, els: Seq<Seq<char>>) -> Seq<Seq<SpanView>> {
    let l = entries_lines(ms, sat_sub(width, 2), mds, els);
    if l.len() == 0 {
        seq![seq![("  Ready — type a message to begin."@, tinted(TEXT_DIM))]]
    } else {
        l
    }
}

/// What the rendering of each entry gives fits it.
pub open spec fn entries_fit(ms: Seq<ChatView>, mds: Seq<Seq<Seq<SpanView>>>, els: Seq<Seq<char>>) -> bool {
    &&& mds.len() == ms.len()
    &&& els.len() == ms.len()
    &&& forall|k: int| 0 <= k < ms.len() ==> entry_fits(#[trigger] ms[k], mds[k], els[k])
}

/// Wraps a text as the transcript does.
fn wrap_by_lines(text: &str, w: usize) -> (r: Vec<String>)
    ensures
        string_views(r@) == wrapped_by_lines(text@, w as nat),
{
    let mut out: Vec<String> = Vec::new();
    if w == 0 {
        out.push(owned(text));
        assert(string_views(out@) =~= seq![text@]);
        return out;
    }
    let cs = chars_of(text);
    let pieces = lines_exec(cs.as_slice());
    let ghost ls = views(pieces@);
    let mut i: usize = 0;
    while i < pieces.len()
        invariant
            i <= pieces.len(),
            w > 0,
            ls == views(pieces@),
            ls == lines(text@),
            string_views(out@) == wrap_lines(ls.take(i as int), w as nat),
        decreases pieces.len() - i,
    {
        push_wrapped_line(&mut out, pieces[i].as_slice(), w);
        assert(ls.take(i + 1).drop_last() =~= ls.take(i as int));
        assert(ls.take(i + 1).last() == pieces@[i as int]@);
        i += 1;
    }
    assert(ls.take(pieces.len() as int) =~= ls);
    if out.len() == 0 {
        out.push(String::new());
        assert(string_views(out@) =~= seq![Seq::<char>::empty()]);
    }
    out
}

/// Adds lines of a prefix and a wrapped piece each.
fn push_prefixed(out: &mut Vec<Vec<StyledSpan>>, ws: Vec<String>, first: &str, rest: &str, pst: SpanStyle, tst: SpanStyle)
    ensures
        lines_view(final(out)@) == lines_view(old(out)@) + prefixed(string_views(ws@), first@, rest@, pst, tst),
{
    let ghost base = lines_view(out@);
    let ghost wv = string_views(ws@);
    let ghost want = prefixed(wv, first@, rest@, pst, tst);
    let mut i: usize = 0;
    while i < ws.len()
        invariant
            i <= ws.len(),
            wv == string_views(ws@),
            want == prefixed(wv, first@, rest@, pst, tst),
            lines_view(out@) == base + want.take(i as int),
        decreases ws.len() - i,
    {
        let mut l: Vec<StyledSpan> = Vec::new();
        push_span(&mut l, span_str(if i == 0 { first } else { rest }, pst));
        push_span(&mut l, span_str(ws[i].as_str(), tst));
        assert(spans_view(l@) =~= want[i as int]);
        push_line(out, l);
        assert(want.take(i + 1) =~= want.take(i as int).push(want[i as int]));
        i += 1;
    }
    assert(want.take(ws.len() as int) =~= want);
}


/// The top border of an expanded tool call of family `f`.
pub open spec fn tool_top(f: ToolFamily, cw: nat) -> Seq<SpanView> {
    let header = tool_header(f);
    let bw = if sat_sub(cw, 4) < 60 { sat_sub(cw, 4) } else { 60 };
    seq![
        ("  ┌─ "@ + header, tinted_bold(family_tint(f))),
        (repeat('─', sat_sub(bw, utf8_len(header) + 4)), tinted(family_tint(f))),
    ]
}

/// The lines of an expanded tool call between its borders.
pub open spec fn tool_body(b: ToolBlockView, aw: nat, color: crate::tui::styled::Tint) -> Seq<Seq<SpanView>> {
    prefixed(wrapped_by_lines(b.arguments, aw), "  │ "@, "  │ "@, tinted(color), tinted(TEXT))
        + (if b.output.len() > 0 {
            prefixed(wrapped_by_lines(take_chars(b.output, 500), aw), "  │ "@, "  │ "@, tinted(color), tinted(TEXT_DIM))
                + if b.output.len() > 500 { seq![seq![("  │ "@, tinted(color)), ("…(truncated)"@, tinted(TEXT_DIM))]] } else { Seq::empty() }
        } else {
            Seq::empty()
        })
        + match b.state {
            ToolStateView::Error(e) => prefixed(wrapped_by_lines(e, aw), "  │ "@, "  │ "@, tinted(color), tinted(ERROR)),
            _ => Seq::empty(),
        }
}

/// The top border of an expanded tool call.
fn top_line(f: ToolFamily, cw: usize) -> (r: Vec<StyledSpan>)
    ensures
        spans_view(r@) == tool_top(f, cw as nat),
{
    let mut header = owned(family_glyph(f));
    push_str(&mut header, " ");
    push_str(&mut header, family_label(f));
    push_str(&mut header, " ");
    let hs = header.as_str();
    let hb = hs.as_bytes().len();
    proof {
        crate::text::lemma_str_len(hs);
        lemma_header_short(f);
        lemma_utf8_len_bound(header@);
        assert(header@ =~= tool_header(f));
    }
    let color = family_color(f);
    let cw4 = if cw >= 4 { cw - 4 } else { 0 };
    let bw = if cw4 < 60 { cw4 } else { 60 };
    let rule_len = if bw >= hb + 4 { bw - (hb + 4) } else { 0 };
    let mut top_text = owned("  ┌─ ");
    push_str(&mut top_text, header.as_str());
    let mut top: Vec<StyledSpan> = Vec::new();
    push_span(&mut top, span(top_text, fg_bold(color)));
    push_span(&mut top, span(repeat_char('─', rule_len), fg(color)));
    assert(spans_view(top@) =~= tool_top(f, cw as nat));
    top
}

/// The lines of an expanded tool call between its borders.
fn body_lines(b: &ToolBlock, aw: usize, color: crate::tui::styled::Tint) -> (r: Vec<Vec<StyledSpan>>)
    ensures
        lines_view(r@) == tool_body(b@, aw as nat, color),
{
    let mut out: Vec<Vec<StyledSpan>> = Vec::new();
    assert(lines_view(out@) =~= Seq::<Seq<SpanView>>::empty());
    push_prefixed(&mut out, wrap_by_lines(b.arguments.as_str(), aw), "  │ ", "  │ ", fg(color), fg(TEXT));
    let ghost part2 = lines_view(out@);
    if !b.output.as_str().is_empty() {
        let cs = chars_of(b.output.as_str());
        let shown = string_of(take_chars_exec(cs.as_slice(), 500).as_slice());
        push_prefixed(&mut out, wrap_by_lines(shown.as_str(), aw), "  │ ", "  │ ", fg(color), fg(TEXT_DIM));
        if cs.len() > 500 {
            let mut l: Vec<StyledSpan> = Vec::new();
            push_span(&mut l, span_str("  │ ", fg(color)));
            push_span(&mut l, span_str("…(truncated)", fg(TEXT_DIM)));
            assert(spans_view(l@) =~= seq![("  │ "@, tinted(color)), ("…(truncated)"@, tinted(TEXT_DIM))]);
            push_line(&mut out, l);
        }
    }
    let ghost part3 = lines_view(out@);
    assert(part3 =~= part2 + if b@.output.len() > 0 {
            prefixed(wrapped_by_lines(take_chars(b@.output, 500), aw as nat), "  │ "@, "  │ "@, tinted(color), tinted(TEXT_DIM))
                + if b@.output.len() > 500 { seq![seq![("  │ "@, tinted(color)), ("…(truncated)"@, tinted(TEXT_DIM))]] } else { Seq::empty() }
        } else {
            Seq::empty()
        });
    match &b.state {
        ToolState::Error(e) => {
            push_prefixed(&mut out, wrap_by_lines(e.as_str(), aw), "  │ ", "  │ ", fg(color), fg(ERROR));
        },
        _ => {},
    }
    assert(lines_view(out@) =~= tool_body(b@, aw as nat, color));
    out
}

/// The one line of a collapsed tool call.
fn collapsed_line(b: &ToolBlock, elapsed: &str) -> (r: Vec<StyledSpan>)
    ensures
        spans_view(r@) == collapsed_tool(b@, elapsed@),
{
    let f = tool_family_for_name(b.name.as_str());
    let scolor = match &b.state {
        ToolState::Running => SPINNER,
        ToolState::Success(_) => SUCCESS,
        ToolState::Error(_) => ERROR,
    };
    let mut head = owned("  ");
    push_str(&mut head, family_glyph(f));
    push_str(&mut head, " ");
    push_str(&mut head, family_label(f));
    push_str(&mut head, ": ");
    let status = match &b.state {
        ToolState::Running => owned(" ⏳"),
        ToolState::Success(_) => {
            let mut t = owned(" ✓ ");
            push_str(&mut t, elapsed);
            t
        },
        ToolState::Error(_) => owned(" ✗"),
    };
    let mut l: Vec<StyledSpan> = Vec::new();
    push_span(&mut l, span(head, fg_bold(family_color(f))));
    push_span(&mut l, span(truncate_chars(b.arguments.as_str(), 40), fg(TEXT_DIM)));
    push_span(&mut l, span(status, fg(scolor)));
    assert(spans_view(l@) =~= collapsed_tool(b@, elapsed@));
    l
}

/// The bottom border of an expanded tool call.
fn bottom_line(b: &ToolBlock, elapsed: &str) -> (r: Vec<StyledSpan>)
    ensures
        spans_view(r@) == tool_bottom(b@, elapsed@),
{
    let (icon, scolor) = match &b.state {
        ToolState::Running => ("⏳", SPINNER),
        ToolState::Success(_) => ("✓", SUCCESS),
        ToolState::Error(_) => ("✗", ERROR),
    };
    let mut text = owned("  ╰── ");
    push_str(&mut text, icon);
    match &b.state {
        ToolState::Success(_) => {
            push_str(&mut text, " ");
            push_str(&mut text, elapsed);
        },
        _ => {},
    }
    push_str(&mut text, " ");
    let ghost dur = match b@.state {
        ToolStateView::Success(_) => " "@ + elapsed@,
        _ => Seq::empty(),
    };
    assert(icon@ == state_look(b@.state).0);
    assert(scolor == state_look(b@.state).1);
    assert(text@ =~= "  ╰── "@ + state_look(b@.state).0 + dur + " "@);
    let mut l: Vec<StyledSpan> = Vec::new();
    push_span(&mut l, span(text, fg(scolor)));
    assert(spans_view(l@) =~= tool_bottom(b@, elapsed@));
    l
}

/// The lines of a tool call, `elapsed` being how its duration is written.
fn tool_lines_with(b: &ToolBlock, cw: usize, elapsed: &str) -> (r: Vec<Vec<StyledSpan>>)
    ensures
        lines_view(r@) == tool_lines(b@, cw as nat, elapsed@),
{
    let mut out: Vec<Vec<StyledSpan>> = Vec::new();
    if b.collapsed {
        push_line(&mut out, collapsed_line(b, elapsed));
        assert(lines_view(out@) =~= tool_lines(b@, cw as nat, elapsed@));
        return out;
    }
    let f = tool_family_for_name(b.name.as_str());
    push_line(&mut out, top_line(f, cw));
    let aw = if cw >= 6 { cw - 6 } else { 0 };
    let body = body_lines(b, aw, family_color(f));
    crate::tui::markdown::extend_lines(&mut out, body);
    push_line(&mut out, bottom_line(b, elapsed));
    assert(lines_view(out@) =~= tool_lines(b@, cw as nat, elapsed@));
    out
}

/// The lines of a tool call, with the whole seconds it took as its duration.
fn tool_block_lines(b: &ToolBlock, cw: usize) -> (r: Vec<Vec<StyledSpan>>)
    ensures
        lines_view(r@) == tool_lines(b@, cw as nat, state_elapsed(b@.state)),
{
    let elapsed = match &b.state {
        ToolState::Success(d) => fmt_elapsed(*d),
        _ => crate::tui::spinner::fmt_secs(0),
    };
    tool_lines_with(b, cw, elapsed.as_str())
}

/// The header of an expanded tool call is short.
proof fn lemma_header_short(f: ToolFamily)
    ensures
        tool_header(f).len() <= 11,
{
    reveal_strlit(" ");
    match f {
        ToolFamily::Read => { reveal_strlit("▷"); reveal_strlit("read"); },
        ToolFamily::Patch => { reveal_strlit("◆"); reveal_strlit("patch"); },
        ToolFamily::Run => { reveal_strlit("▶"); reveal_strlit("run"); },
        ToolFamily::Find => { reveal_strlit("⌕"); reveal_strlit("find"); },
        ToolFamily::Delegate => { reveal_strlit("◐"); reveal_strlit("delegate"); },
        ToolFamily::Think => { reveal_strlit("…"); reveal_strlit("think"); },
        ToolFamily::Generic => { reveal_strlit("•"); reveal_strlit("tool"); },
    }
}

/// A character takes at most four bytes.
proof fn lemma_utf8_len_bound(s: Seq<char>)
    ensures
        utf8_len(s) <= 4 * s.len(),
    decreases s.len(),
{
    if s.len() > 0 {
        lemma_utf8_len_bound(s.drop_first());
    }
}


/// Each line with a margin of two spaces before it.
fn indented(md: Vec<Vec<StyledSpan>>) -> (r: Vec<Vec<StyledSpan>>)
    ensures
        lines_view(r@) == lines_view(md@).map_values(|l: Seq<SpanView>| seq![("  "@, no_style())] + l),
{
    let ghost want = lines_view(md@).map_values(|l: Seq<SpanView>| seq![("  "@, no_style())] + l);
    let mut out: Vec<Vec<StyledSpan>> = Vec::new();
    let mut i: usize = 0;
    while i < md.len()
        invariant
            i <= md.len(),
            want == lines_view(md@).map_values(|l: Seq<SpanView>| seq![("  "@, no_style())] + l),
            lines_view(out@) == want.take(i as int),
        decreases md.len() - i,
    {
        let mut l: Vec<StyledSpan> = Vec::new();
        push_span(&mut l, span_str("  ", plain_style()));
        crate::tui::styled::append_spans(&mut l, crate::tui::markdown::clone_line(&md[i]));
        assert(spans_view(l@) =~= want[i as int]);
        push_line(&mut out, l);
        assert(want.take(i + 1) =~= want.take(i as int).push(want[i as int]));
        i += 1;
    }
    assert(want.take(md.len() as int) =~= want);
    out
}

impl MessagesArea {
    /// The lines of one entry, `cw` columns being available.
    fn entry(&self, m: &ChatMessage, cw: usize) -> (r: Vec<Vec<StyledSpan>>)
        ensures
            exists|md: Seq<Seq<SpanView>>, el: Seq<char>| entry_fits(m@, md, el) && lines_view(r@) == entry_lines(m@, cw as nat, md, el),
    {
        let cw2 = if cw >= 2 { cw - 2 } else { 0 };
        let cw4 = if cw >= 4 { cw - 4 } else { 0 };
        let mut out: Vec<Vec<StyledSpan>> = Vec::new();
        assert(lines_view(out@) =~= Seq::<Seq<SpanView>>::empty());
        let ghost zero = elapsed_text(0);
        match m {
            ChatMessage::User(t) => {
                push_prefixed(&mut out, wrap_by_lines(t.as_str(), cw2), "┃ ", "  ", fg_bold(PRIMARY), fg(TEXT));
                assert(entry_fits(m@, Seq::empty(), zero));
                assert(lines_view(out@) =~= entry_lines(m@, cw as nat, Seq::empty(), zero));
                out
            },
            ChatMessage::Assistant(t) => {
                let md = self.markdown.render(t.as_str());
                let ghost mv = lines_view(md@);
                let r = indented(md);
                assert(entry_fits(m@, mv, zero));
                assert(lines_view(r@) =~= entry_lines(m@, cw as nat, mv, zero));
                r
            },
            ChatMessage::ToolCall(b) => {
                let r = tool_block_lines(b, cw);
                proof {
                    let el = state_elapsed(b@.state);
                    assert(entry_fits(m@, Seq::empty(), el));
                    assert(lines_view(r@) =~= entry_lines(m@, cw as nat, Seq::empty(), el));
                }
                r
            },
            ChatMessage::System(t) => {
                let style = SpanStyle { italic: true, ..fg(TEXT_DIM) };
                push_prefixed(&mut out, wrap_by_lines(t.as_str(), cw2), "  ", "  ", fg(TEXT_DIM), style);
                assert(entry_fits(m@, Seq::empty(), zero));
                assert(lines_view(out@) =~= entry_lines(m@, cw as nat, Seq::empty(), zero));
                out
            },
            ChatMessage::Error(t) => {
                push_prefixed(&mut out, wrap_by_lines(t.as_str(), cw4), "✗ ", "  ", fg(ERROR), fg(ERROR));
                assert(entry_fits(m@, Seq::empty(), zero));
                assert(lines_view(out@) =~= entry_lines(m@, cw as nat, Seq::empty(), zero));
                out
            },
        }
    }

    /// The lines of the transcript in a line `width` columns wide.
    pub fn collect_lines(&self, width: u16) -> (r: Vec<Vec<StyledSpan>>)
        ensures
            exists|mds: Seq<Seq<Seq<SpanView>>>, els: Seq<Seq<char>>|
                entries_fit(self@.messages, mds, els) && lines_view(r@) == transcript(self@.messages, width as nat, mds, els),
    {
        let cw: usize = if width >= 2 { (width - 2) as usize } else { 0 };
        let ghost ms = chats_view(self.messages@);
        let ghost mut mds: Seq<Seq<Seq<SpanView>>> = Seq::empty();
        let ghost mut els: Seq<Seq<char>> = Seq::empty();
        let mut out: Vec<Vec<StyledSpan>> = Vec::new();
        assert(lines_view(out@) =~= Seq::<Seq<SpanView>>::empty());
        let mut i: usize = 0;
        while i < self.messages.len()
            invariant
                i <= self.messages.len(),
                ms == chats_view(self.messages@),
                cw == sat_sub(width as nat, 2),
                entries_fit(ms.take(i as int), mds, els),
                lines_view(out@) == entries_lines(ms.take(i as int), cw as nat, mds, els),
            decreases self.messages.len() - i,
        {
            let m = &self.messages[i];
            let part = self.entry(m, cw);
            let ghost (md, el) = choose|md: Seq<Seq<SpanView>>, el: Seq<char>|
                entry_fits(m@, md, el) && lines_view(part@) == entry_lines(m@, cw as nat, md, el);
            crate::tui::markdown::extend_lines(&mut out, part);
            proof {
                let mds2 = mds.push(md);
                let els2 = els.push(el);
                let t2 = ms.take(i + 1);
                assert(t2.drop_last() =~= ms.take(i as int));
                assert(t2.last() == m@);
                assert(mds2.drop_last() =~= mds);
                assert(els2.drop_last() =~= els);
                assert forall|k: int| 0 <= k < t2.len() implies entry_fits(#[trigger] t2[k], mds2[k], els2[k]) by {
                    if k < i {
                        assert(t2[k] == ms.take(i as int)[k]);
                    }
                }
                mds = mds2;
                els = els2;
            }
            i += 1;
        }
        assert(ms.take(self.messages.len() as int) =~= ms);
        assert(lines_view(out@) == entries_lines(ms, cw as nat, mds, els));
        if out.len() == 0 {
            let mut l: Vec<StyledSpan> = Vec::new();
            push_span(&mut l, span_str("  Ready — type a message to begin.", fg(TEXT_DIM)));
            assert(spans_view(l@) =~= seq![("  Ready — type a message to begin."@, tinted(TEXT_DIM))]);
            push_line(&mut out, l);
            assert(lines_view(out@) =~= transcript(ms, width as nat, mds, els));
        }
        assert(ms == self@.messages);
        assert(entries_fit(self@.messages, mds, els) && lines_view(out@) == transcript(self@.messages, width as nat, mds, els));
        out
    }
}


/// Which of `total` lines show in `height` lines, first and past the last:
/// the newest ones when following them, else as far up as scrolled (at most
/// to the first line).
pub open spec fn window(a: MessagesView, total: nat, height: nat) -> (nat, nat) {
    let max_scroll = sat_sub(total, height);
    let scroll = if a.auto_scroll { 0 } else if a.scroll_offset < max_scroll { a.scroll_offset } else { max_scroll };
    let start = sat_sub(max_scroll, scroll);
    (start, if start + height < total { start + height } else { total })
}

/// The lines of the transcript shown in an area `width` columns wide and
/// `height` lines tall.
pub open spec fn shown_window(a: MessagesView, width: nat, height: nat, mds: Seq<Seq<Seq<SpanView>>>, els: Seq<Seq<char>>) -> Seq<Seq<SpanView>> {
    let all = transcript(a.messages, width, mds, els);
    let (start, end) = window(a, all.len(), height);
    all.subrange(start as int, end as int)
}

impl MessagesArea {
    /// Which of `total` lines show in `height` lines.
    pub fn visible_range(&self, total: usize, height: usize) -> (r: (usize, usize))
        ensures
            (r.0 as nat, r.1 as nat) == window(self@, total as nat, height as nat),
    {
        let max_scroll = if total >= height { total - height } else { 0 };
        let scroll = if self.auto_scroll {
            0
        } else if self.scroll_offset < max_scroll {
            self.scroll_offset
        } else {
            max_scroll
        };
        let start = max_scroll - scroll;
        let end = if height < total - start { start + height } else { total };
        (start, end)
    }

    /// The lines of the transcript shown in an area `width` columns wide and
    /// `height` lines tall.
    pub fn visible_lines(&self, width: u16, height: u16) -> (r: Vec<Vec<StyledSpan>>)
        ensures
            exists|mds: Seq<Seq<Seq<SpanView>>>, els: Seq<Seq<char>>|
                entries_fit(self@.messages, mds, els) && lines_view(r@) == shown_window(self@, width as nat, height as nat, mds, els),
    {
        let all = self.collect_lines(width);
        let (start, end) = self.visible_range(all.len(), height as usize);
        let ghost av = lines_view(all@);
        let mut out: Vec<Vec<StyledSpan>> = Vec::new();
        let mut i: usize = start;
        while i < end
            invariant
                start <= i <= end,
                end <= all.len(),
                av == lines_view(all@),
                lines_view(out@) == av.subrange(start as int, i as int),
            decreases end - i,
        {
            push_line(&mut out, crate::tui::markdown::clone_line(&all[i]));
            assert(av.subrange(start as int, i + 1) =~= av.subrange(start as int, i as int).push(av[i as int]));
            i += 1;
        }
        proof {
            let (mds, els) = choose|mds: Seq<Seq<Seq<SpanView>>>, els: Seq<Seq<char>>|
                entries_fit(self@.messages, mds, els) && lines_view(all@) == transcript(self@.messages, width as nat, mds, els);
            let t = transcript(self@.messages, width as nat, mds, els);
            assert(window(self@, t.len(), height as nat) == (start as nat, end as nat));
            assert(lines_view(out@) == shown_window(self@, width as nat, height as nat, mds, els));
        }
        out
    }
}


/// Streamed text gathers in one message: adding `a` and then `b` is adding
/// them together.
pub proof fn law_tokens_accumulate(ms: Seq<ChatView>, a: Seq<char>, b: Seq<char>)
    ensures
        text_appended(text_appended(ms, a), b) == text_appended(ms, a + b),
{
    let m1 = text_appended(ms, a);
    assert(m1.len() > 0 && m1.last() is Assistant);
    if ms.len() > 0 {
        match ms.last() {
            ChatView::Assistant(t) => {
                assert(m1.last() == ChatView::Assistant(t + a));
                assert(t + a + b =~= t + (a + b));
                assert(m1.update(m1.len() - 1, ChatView::Assistant(t + a + b)) =~= ms.update(ms.len() - 1, ChatView::Assistant(t + (a + b))));
            },
            _ => {
                assert(m1.update(m1.len() - 1, ChatView::Assistant(a + b)) =~= ms.push(ChatView::Assistant(a + b)));
            },
        }
    } else {
        assert(m1.update(m1.len() - 1, ChatView::Assistant(a + b)) =~= ms.push(ChatView::Assistant(a + b)));
    }
}

/// The lines shown fit in the area: no more than its height, within the
/// transcript, and the newest ones while following them.
pub proof fn law_window_fits(a: MessagesView, total: nat, height: nat)
    ensures
        ({
            let (start, end) = window(a, total, height);
            &&& start <= end <= total
            &&& end - start <= height
            &&& a.auto_scroll ==> end == total
        }),
{
}

/// Scrolling up and back down by the same amount returns to where the
/// transcript was, when it was scrolled up already.
pub proof fn law_scroll_round_trip(a: MessagesView, n: nat)
    requires
        !a.auto_scroll,
        a.scroll_offset > 0,
        a.scroll_offset + n <= usize::MAX,
    ensures
        scrolled_down(scrolled_up(a, n), n) == a,
{
}

} // verus!
