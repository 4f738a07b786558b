//! A tool call as the interface shows it: its family, display name, state,
//! and the wrapping of its text to the width of the terminal.
use vstd::prelude::*;
use std::time::Duration;
use crate::text::{
    chars_of, lemma_string_views_push, owned, push_char, push_str, split_char, split_char_exec,
    str_eq, string_of, string_views, views,
};
use crate::clock::whole_secs;
use crate::tui::spinner::{elapsed_text, fmt_elapsed};
use crate::width::{columns_of, columns_or_zero, str_columns, str_width};
use crate::tui::styled::{
    fg, fg_bold, lines_view, no_style, plain_style, push_line, push_span, span, span_str, spans_view, tinted,
    tinted_bold, SpanStyle, SpanView, StyledSpan,
};
use crate::tui::theme::{tool_color, tool_tint, ERROR, SPINNER, SUCCESS, TEXT, TEXT_DIM};

verus! {

/// The families in which tools are grouped.
#[derive(Debug, Clone, Copy, PartialEq, Eq, Structural)]
pub enum ToolFamily {
    Read,
    Patch,
    Run,
    Find,
    Delegate,
    Think,
    Generic,
}

/// The family of the tool named `name`.
pub open spec fn family_of(name: Seq<char>) -> ToolFamily {
    if name == "file_read"@ || name == "ls"@ {
        ToolFamily::Read
    } else if name == "file_write"@ || name == "file_edit"@ {
        ToolFamily::Patch
    } else if name == "shell"@ || name == "git_commit"@ || name == "git_diff"@ || name
        == "git_status"@ {
        ToolFamily::Run
    } else if name == "grep"@ || name == "glob"@ || name == "web_search"@ {
        ToolFamily::Find
    } else {
        ToolFamily::Generic
    }
}

/// The family of a tool, by its name.
pub fn tool_family_for_name(name: &str) -> (r: ToolFamily)
    ensures
        r == family_of(name@),
{
    if str_eq(name, "file_read") || str_eq(name, "ls") {
        ToolFamily::Read
    } else if str_eq(name, "file_write") || str_eq(name, "file_edit") {
        ToolFamily::Patch
    } else if str_eq(name, "shell") || str_eq(name, "git_commit") || str_eq(name, "git_diff")
        || str_eq(name, "git_status") {
        ToolFamily::Run
    } else if str_eq(name, "grep") || str_eq(name, "glob") || str_eq(name, "web_search") {
        ToolFamily::Find
    } else {
        ToolFamily::Generic
    }
}

/// The glyph of a family.
pub open spec fn glyph_of(family: ToolFamily) -> Seq<char> {
    match family {
        ToolFamily::Read => "▷"@,
        ToolFamily::Patch => "◆"@,
        ToolFamily::Run => "▶"@,
        ToolFamily::Find => "⌕"@,
        ToolFamily::Delegate => "◐"@,
        ToolFamily::Think => "…"@,
        ToolFamily::Generic => "•"@,
    }
}

/// The glyph shown before a tool of the family.
pub fn family_glyph(family: ToolFamily) -> (r: &'static str)
    ensures
        r@ == glyph_of(family),
{
    match family {
        ToolFamily::Read => "▷",
        ToolFamily::Patch => "◆",
        ToolFamily::Run => "▶",
        ToolFamily::Find => "⌕",
        ToolFamily::Delegate => "◐",
        ToolFamily::Think => "…",
        ToolFamily::Generic => "•",
    }
}

/// The label of a family.
pub open spec fn label_of(family: ToolFamily) -> Seq<char> {
    match family {
        ToolFamily::Read => "read"@,
        ToolFamily::Patch => "patch"@,
        ToolFamily::Run => "run"@,
        ToolFamily::Find => "find"@,
        ToolFamily::Delegate => "delegate"@,
        ToolFamily::Think => "think"@,
        ToolFamily::Generic => "tool"@,
    }
}

/// The short label of a family.
pub fn family_label(family: ToolFamily) -> (r: &'static str)
    ensures
        r@ == label_of(family),
{
    match family {
        ToolFamily::Read => "read",
        ToolFamily::Patch => "patch",
        ToolFamily::Run => "run",
        ToolFamily::Find => "find",
        ToolFamily::Delegate => "delegate",
        ToolFamily::Think => "think",
        ToolFamily::Generic => "tool",
    }
}

/// Where a tool call stands.
#[derive(Debug, Clone)]
pub enum ToolState {
    Running,
    Success(Duration),
    Error(String),
}

/// The duration a call took, as the transcript shows it; that of a call
/// that has not succeeded is never shown.
pub open spec fn block_elapsed(s: ToolState) -> Seq<char> {
    match s {
        ToolState::Success(d) => elapsed_text(whole_secs(d) as nat),
        _ => elapsed_text(0),
    }
}

/// [`block_elapsed`] of the value of a state.
pub open spec fn state_elapsed(s: ToolStateView) -> Seq<char> {
    match s {
        ToolStateView::Success(d) => elapsed_text(whole_secs(d) as nat),
        _ => elapsed_text(0),
    }
}

/// A tool call in the transcript.
#[derive(Debug, Clone)]
pub struct ToolBlock {
    pub name: String,
    pub arguments: String,
    pub output: String,
    pub state: ToolState,
    pub collapsed: bool,
}

/// The value of a [`ToolState`].
pub ghost enum ToolStateView {
    Running,
    Success(Duration),
    Error(Seq<char>),
}

/// The value of a [`ToolBlock`].
pub ghost struct ToolBlockView {
    pub name: Seq<char>,
    pub arguments: Seq<char>,
    pub output: Seq<char>,
    pub state: ToolStateView,
    pub collapsed: bool,
}

impl View for ToolBlock {
    type V = ToolBlockView;

    open spec fn view(&self) -> ToolBlockView {
        ToolBlockView {
            name: self.name@,
            arguments: self.arguments@,
            output: self.output@,
            state: match self.state {
                ToolState::Running => ToolStateView::Running,
                ToolState::Success(d) => ToolStateView::Success(d),
                ToolState::Error(e) => ToolStateView::Error(e@),
            },
            collapsed: self.collapsed,
        }
    }
}

impl ToolBlock {
    /// A running, expanded call without output.
    pub fn new(name: &str, args: &str) -> (r: Self)
        ensures
            r.name@ == name@,
            r.arguments@ == args@,
            r.output@ == Seq::<char>::empty(),
            r.state is Running,
            !r.collapsed,
    {
        ToolBlock {
            name: owned(name),
            arguments: owned(args),
            output: String::new(),
            state: ToolState::Running,
            collapsed: false,
        }
    }

    /// Records the output of a call that succeeded, and how long it took.
    pub fn finish_ok(&mut self, output: &str, duration: Duration)
        ensures
            final(self).output@ == output@,
            final(self).state == ToolState::Success(duration),
            final(self).name == old(self).name,
            final(self).arguments == old(self).arguments,
            final(self).collapsed == old(self).collapsed,
    {
        self.output = owned(output);
        self.state = ToolState::Success(duration);
    }

    /// Records the error of a call that failed; its output stays.
    pub fn finish_err(&mut self, error: &str)
        ensures
            final(self).state matches ToolState::Error(e) && e@ == error@,
            final(self).output == old(self).output,
            final(self).name == old(self).name,
            final(self).arguments == old(self).arguments,
            final(self).collapsed == old(self).collapsed,
    {
        self.state = ToolState::Error(owned(error));
    }

    /// Collapses an expanded block, or expands a collapsed one.
    pub fn toggle_collapse(&mut self)
        ensures
            final(self).collapsed == !old(self).collapsed,
            final(self).name == old(self).name,
            final(self).arguments == old(self).arguments,
            final(self).output == old(self).output,
            final(self).state == old(self).state,
    {
        self.collapsed = !self.collapsed;
    }

    /// The status shown after a collapsed block: ` ⏳` while it runs, ` ✓`
    /// and its duration when it succeeded, ` ✗` when it failed.
    pub fn status_suffix(&self) -> (r: String)
        ensures
            self.state is Running ==> r@ == " ⏳"@,
            self.state is Success ==> exists|secs: nat| r@ == " ✓ "@ + elapsed_text(secs),
            self.state is Success ==> r@ == " ✓ "@ + block_elapsed(self.state),
            self.state is Error ==> r@ == " ✗"@,
    {
        match &self.state {
            ToolState::Running => owned(" ⏳"),
            ToolState::Success(d) => {
                let mut r = owned(" ✓ ");
                let e = fmt_elapsed(*d);
                push_str(&mut r, e.as_str());
                r
            },
            ToolState::Error(_) => owned(" ✗"),
        }
    }
}

/// The name under which a tool is shown.
pub open spec fn display_name(name: Seq<char>) -> Seq<char> {
    if name == "file_read"@ {
        "Read File"@
    } else if name == "file_write"@ {
        "Write File"@
    } else if name == "file_edit"@ {
        "Edit File"@
    } else if name == "shell"@ {
        "Run Command"@
    } else if name == "grep"@ {
        "Search"@
    } else if name == "glob"@ {
        "Find Files"@
    } else if name == "ls"@ {
        "List Directory"@
    } else if name == "git_diff"@ {
        "Git Diff"@
    } else if name == "git_status"@ {
        "Git Status"@
    } else if name == "git_commit"@ {
        "Git Commit"@
    } else if name == "web_search"@ {
        "Web Search"@
    } else {
        name
    }
}

/// The display name of a tool; an unknown tool is shown by its own name.
pub fn tool_display_name<'a>(name: &'a str) -> (r: &'a str)
    ensures
        r@ == display_name(name@),
{
    if str_eq(name, "file_read") {
        "Read File"
    } else if str_eq(name, "file_write") {
        "Write File"
    } else if str_eq(name, "file_edit") {
        "Edit File"
    } else if str_eq(name, "shell") {
        "Run Command"
    } else if str_eq(name, "grep") {
        "Search"
    } else if str_eq(name, "glob") {
        "Find Files"
    } else if str_eq(name, "ls") {
        "List Directory"
    } else if str_eq(name, "git_diff") {
        "Git Diff"
    } else if str_eq(name, "git_status") {
        "Git Status"
    } else if str_eq(name, "git_commit") {
        "Git Commit"
    } else if str_eq(name, "web_search") {
        "Web Search"
    } else {
        name
    }
}

/// The pieces of a line that does not fit in `width` columns: characters are
/// added to the current piece `cur` (of `cur_w` columns) until the next one
/// would overflow it, and then a new piece starts.
pub open spec fn chunks(line: Seq<char>, width: nat, cur: Seq<char>, cur_w: nat) -> Seq<Seq<char>>
    decreases line.len(),
{
    if line.len() == 0 {
        if cur.len() > 0 {
            seq![cur]
        } else {
            Seq::empty()
        }
    } else {
        let c = line[0];
        let w = columns_or_zero(c);
        if cur_w + w > width {
            seq![cur] + chunks(line.drop_first(), width, seq![c], w)
        } else {
            chunks(line.drop_first(), width, cur.push(c), cur_w + w)
        }
    }
}

/// A line as it is shown in `width` columns: whole when it fits, else in pieces.
pub open spec fn wrap_line(line: Seq<char>, width: nat) -> Seq<Seq<char>> {
    if str_columns(line) <= width {
        seq![line]
    } else {
        chunks(line, width, Seq::empty(), 0)
    }
}

/// The wrapped pieces of several lines, one after the other.
pub open spec fn wrap_lines(lines: Seq<Seq<char>>, width: nat) -> Seq<Seq<char>>
    decreases lines.len(),
{
    if lines.len() == 0 {
        Seq::empty()
    } else {
        wrap_lines(lines.drop_last(), width) + wrap_line(lines.last(), width)
    }
}

/// A text as it is shown in `width` columns: each of its lines wrapped; the
/// text unchanged when the width is zero; one empty line when nothing is left.
pub open spec fn wrapped(text: Seq<char>, width: nat) -> Seq<Seq<char>> {
    if width == 0 {
        seq![text]
    } else {
        let r = wrap_lines(split_char(text, '\n'), width);
        if r.len() == 0 {
            seq![Seq::<char>::empty()]
        } else {
            r
        }
    }
}

/// Adds the pieces of one line to `out`.
pub(crate) fn push_wrapped_line(out: &mut Vec<String>, line: &[char], width: usize)
    requires
        width > 0,
    ensures
        string_views(final(out)@) == string_views(old(out)@) + wrap_line(line@, width as nat),
{
    let s = string_of(line);
    if str_width(s.as_str()) <= width {
        let ghost before = out@;
        out.push(s);
        proof {
            lemma_string_views_push(before, s);
        }
        return ;
    }
    let ghost base = string_views(out@);
    let mut current = String::new();
    let mut current_width: usize = 0;
    let mut k: usize = 0;
    assert(line@.skip(0) =~= line@);
    while k < line.len()
        invariant
            k <= line.len(),
            width > 0,
            current_width <= width || current_width <= 3,
            string_views(out@) + chunks(line@.skip(k as int), width as nat, current@, current_width as nat)
                == base + chunks(line@, width as nat, Seq::empty(), 0),
        decreases line.len() - k,
    {
        let c = line[k];
        let w = columns_of(c);
        let ghost rest = line@.skip(k as int);
        assert(rest[0] == c);
        assert(rest.drop_first() =~= line@.skip(k + 1));
        let overflow = if current_width > width {
            true
        } else {
            w > width - current_width
        };
        if overflow {
            let ghost before = out@;
            let done = current;
            out.push(done);
            proof {
                lemma_string_views_push(before, done);
                assert(string_views(before).push(done@) + chunks(line@.skip(k + 1), width as nat, seq![c], w as nat)
                    =~= string_views(before) + (seq![done@] + chunks(line@.skip(k + 1), width as nat, seq![c], w as nat)));
            }
            current = String::new();
            push_char(&mut current, c);
            assert(current@ =~= seq![c]);
            current_width = w;
        } else {
            push_char(&mut current, c);
            current_width = current_width + w;
        }
        k += 1;
    }
    assert(line@.skip(k as int) =~= Seq::<char>::empty());
    if !current.as_str().is_empty() {
        let ghost before = out@;
        out.push(current);
        proof {
            lemma_string_views_push(before, current);
        }
    } else {
        assert(string_views(out@) + Seq::<Seq<char>>::empty() =~= string_views(out@));
    }
}

/// Wraps a text to `width` columns: each line that fits stays whole; a longer
/// line is cut where the next character would overflow the width.
pub fn wrap_text(text: &str, width: usize) -> (r: Vec<String>)
    ensures
        string_views(r@) == wrapped(text@, width as nat),
{
    if width == 0 {
        let mut r: Vec<String> = Vec::new();
        r.push(owned(text));
        assert(string_views(r@) =~= seq![text@]);
        return r;
    }
    let cs = chars_of(text);
    let pieces = split_char_exec(cs.as_slice(), '\n');
    let ghost lines = views(pieces@);
    let mut out: Vec<String> = Vec::new();
    let mut i: usize = 0;
    while i < pieces.len()
        invariant
            i <= pieces.len(),
            width > 0,
            lines == views(pieces@),
            lines == split_char(text@, '\n'),
            string_views(out@) == wrap_lines(lines.take(i as int), width as nat),
        decreases pieces.len() - i,
    {
        push_wrapped_line(&mut out, pieces[i].as_slice(), width);
        proof {
            assert(lines.take(i + 1).drop_last() =~= lines.take(i as int));
            assert(lines.take(i + 1).last() == pieces@[i as int]@);
        }
        i += 1;
    }
    assert(lines.take(pieces.len() as int) =~= lines);
    if out.len() == 0 {
        out.push(String::new());
        assert(string_views(out@) =~= seq![Seq::<char>::empty()]);
    }
    out
}

/// `s` limited to `max_chars` characters: when longer, its first
/// `max_chars - 1` characters and an ellipsis.
pub open spec fn truncated_chars(s: Seq<char>, max_chars: nat) -> Seq<char> {
    if s.len() <= max_chars {
        s
    } else {
        s.take(if max_chars >= 1 { max_chars - 1 } else { 0 }) + "…"@
    }
}

/// Limits a text to `max_chars` characters, marking the cut with an ellipsis.
pub fn truncate_chars(s: &str, max_chars: usize) -> (r: String)
    ensures
        r@ == truncated_chars(s@, max_chars as nat),
{
    let cs = chars_of(s);
    if cs.len() <= max_chars {
        return owned(s);
    }
    let keep = if max_chars >= 1 { max_chars - 1 } else { 0 };
    let mut r = string_of(crate::text::slice_vec(cs.as_slice(), 0, keep).as_slice());
    push_char(&mut r, '…');
    proof {
        reveal_strlit("…");
        assert(cs@.subrange(0, keep as int) =~= cs@.take(keep as int));
    }
    assert(r@ =~= s@.take(keep as int) + "…"@);
    r
}


/// The mark of a call's state and its colour.
pub open spec fn state_mark(state: ToolState) -> (Seq<char>, crate::tui::styled::Tint) {
    match state {
        ToolState::Running => ("⏳"@, SPINNER),
        ToolState::Success(_) => ("✓"@, SUCCESS),
        ToolState::Error(_) => ("✗"@, ERROR),
    }
}

/// The one line of a collapsed block, `elapsed` being how its duration is
/// written: a marker, the display name, the arguments cut to forty
/// characters, and the state.
pub open spec fn collapsed_spans(b: ToolBlock, elapsed: Seq<char>) -> Seq<SpanView> {
    let color = tool_tint(b.name@);
    let suffix = match b.state {
        ToolState::Running => " ⏳"@,
        ToolState::Success(_) => " ✓ "@ + elapsed,
        ToolState::Error(_) => " ✗"@,
    };
    seq![
        ("▸ "@, tinted(color)),
        (display_name(b.name@), tinted_bold(color)),
        (": "@, no_style()),
        (truncated_chars(b.arguments@, 40), tinted(TEXT_DIM)),
        (suffix, tinted(state_mark(b.state).1)),
    ]
}

/// Lines of one piece each, all in the style `st`.
pub open spec fn single_lines(ls: Seq<Seq<char>>, st: SpanStyle) -> Seq<Seq<SpanView>> {
    ls.map_values(|l: Seq<char>| seq![(l, st)])
}

/// The lines inside the frame of an expanded block, `width` columns wide:
/// the command, the output when there is one, and the error when it failed.
pub open spec fn expanded_lines(b: ToolBlock, width: nat) -> Seq<Seq<SpanView>> {
    single_lines(wrapped("$ "@ + b.arguments@, width), tinted(TEXT))
        + (if b.output@.len() > 0 { single_lines(wrapped(b.output@, width), tinted(TEXT_DIM)) } else { Seq::empty() })
        + match b.state {
            ToolState::Error(e) => single_lines(wrapped(e@, width), tinted(ERROR)),
            _ => Seq::empty(),
        }
}

/// The frame of an expanded block: its title, its bottom title, the style of
/// its border, and the lines inside.
pub struct ToolFrame {
    pub title: StyledSpan,
    pub footer: StyledSpan,
    pub border: SpanStyle,
    pub lines: Vec<Vec<StyledSpan>>,
}

/// Adds each piece as a line of its own, in the style `st`.
fn push_single_lines(out: &mut Vec<Vec<StyledSpan>>, pieces: Vec<String>, st: SpanStyle)
    ensures
        lines_view(final(out)@) == lines_view(old(out)@) + single_lines(string_views(pieces@), st),
{
    let ghost start = lines_view(out@);
    let ghost pv = string_views(pieces@);
    let mut i: usize = 0;
    while i < pieces.len()
        invariant
            i <= pieces.len(),
            pv == string_views(pieces@),
            lines_view(out@) == start + single_lines(pv.take(i as int), st),
        decreases pieces.len() - i,
    {
        let mut l: Vec<StyledSpan> = Vec::new();
        push_span(&mut l, span_str(pieces[i].as_str(), st));
        assert(spans_view(l@) =~= seq![(pv[i as int], st)]);
        push_line(out, l);
        assert(pv.take(i + 1) =~= pv.take(i as int).push(pv[i as int]));
        assert(single_lines(pv.take(i + 1), st) =~= single_lines(pv.take(i as int), st).push(seq![(pv[i as int], st)]));
        i += 1;
    }
    assert(pv.take(pieces.len() as int) =~= pv);
}

impl ToolBlock {
    /// The one line of the block when it is collapsed.
    pub fn collapsed_line(&self) -> (r: Vec<StyledSpan>)
        ensures
            spans_view(r@) == collapsed_spans(*self, block_elapsed(self.state)),
            exists|secs: nat| spans_view(r@) == collapsed_spans(*self, elapsed_text(secs)),
    {
        let display = tool_display_name(self.name.as_str());
        let color = tool_color(self.name.as_str());
        let mut line: Vec<StyledSpan> = Vec::new();
        push_span(&mut line, span_str("▸ ", fg(color)));
        push_span(&mut line, span_str(display, fg_bold(color)));
        push_span(&mut line, span_str(": ", plain_style()));
        push_span(&mut line, span(truncate_chars(self.arguments.as_str(), 40), fg(TEXT_DIM)));
        let status_color = match &self.state {
            ToolState::Success(_) => SUCCESS,
            ToolState::Error(_) => ERROR,
            ToolState::Running => SPINNER,
        };
        let suffix = self.status_suffix();
        push_span(&mut line, span(suffix, fg(status_color)));
        proof {
            assert(spans_view(line@) =~= collapsed_spans(*self, block_elapsed(self.state)));
            if self.state is Success {
                assert(spans_view(line@) == collapsed_spans(*self, elapsed_text(whole_secs(self.state->Success_0) as nat)));
            } else {
                assert(spans_view(line@) == collapsed_spans(*self, elapsed_text(0)));
            }
        }
        line
    }

    /// The frame of the block when it is expanded, its inside `width` columns
    /// wide.
    pub fn expanded_frame(&self, width: usize) -> (r: ToolFrame)
        ensures
            r.title@ == (" "@ + display_name(self.name@) + " "@, tinted_bold(tool_tint(self.name@))),
            r.footer.style == tinted(state_mark(self.state).1),
            !(self.state is Success) ==> r.footer.text@ == " ─ "@ + state_mark(self.state).0 + " "@,
            self.state is Success ==> r.footer.text@ == " ─ "@ + state_mark(self.state).0 + " "@ + block_elapsed(self.state) + " "@,
            self.state is Success ==> exists|secs: nat| r.footer.text@ == " ─ "@ + state_mark(self.state).0 + " "@ + elapsed_text(secs) + " "@,
            r.border == tinted(tool_tint(self.name@)),
            lines_view(r.lines@) == expanded_lines(*self, width as nat),
    {
        let display = tool_display_name(self.name.as_str());
        let color = tool_color(self.name.as_str());
        let (icon, status_color) = match &self.state {
            ToolState::Running => ("⏳", SPINNER),
            ToolState::Success(_) => ("✓", SUCCESS),
            ToolState::Error(_) => ("✗", ERROR),
        };
        let mut title = owned(" ");
        push_str(&mut title, display);
        push_str(&mut title, " ");
        let mut footer = owned(" ─ ");
        push_str(&mut footer, icon);
        let ghost mut secs: nat = 0;
        match &self.state {
            ToolState::Success(d) => {
                push_str(&mut footer, " ");
                let e = fmt_elapsed(*d);
                proof {
                    secs = whole_secs(*d) as nat;
                }
                push_str(&mut footer, e.as_str());
            },
            _ => {},
        }
        push_str(&mut footer, " ");
        let mut lines: Vec<Vec<StyledSpan>> = Vec::new();
        let mut args_line = owned("$ ");
        push_str(&mut args_line, self.arguments.as_str());
        push_single_lines(&mut lines, wrap_text(args_line.as_str(), width), fg(TEXT));
        if !self.output.as_str().is_empty() {
            push_single_lines(&mut lines, wrap_text(self.output.as_str(), width), fg(TEXT_DIM));
        }
        match &self.state {
            ToolState::Error(err) => {
                push_single_lines(&mut lines, wrap_text(err.as_str(), width), fg(ERROR));
            },
            _ => {},
        }
        proof {
            assert(lines_view(lines@) =~= expanded_lines(*self, width as nat));
            if self.state is Success {
                assert(footer@ =~= " ─ "@ + state_mark(self.state).0 + " "@ + elapsed_text(secs) + " "@);
            } else {
                assert(footer@ =~= " ─ "@ + state_mark(self.state).0 + " "@);
            }
        }
        ToolFrame { title: span(title, fg_bold(color)), footer: span(footer, fg(status_color)), border: fg(color), lines }
    }
}

} // verus!
