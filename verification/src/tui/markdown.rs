//! Markdown as the transcript shows it: the events of a Markdown text turned
//! into lines of styled text, code blocks highlighted by their language.
use vstd::prelude::*;
use pulldown_cmark::{CodeBlockKind, Event, Options, Parser, Tag, TagEnd};
use syntect::easy::HighlightLines;
use syntect::highlighting::{Theme, ThemeSet};
use syntect::parsing::SyntaxSet;
use crate::text::{decimal, decimal_exec, owned, push_char, push_str, string_of};
use crate::tui::header::{repeat, repeat_char};
use crate::tui::styled::{
    fg, lines_view, no_style, plain_style, push_line, push_span, span, span_str, spans_view, tinted, SpanStyle,
    SpanView, StyledSpan, Tint,
};

verus! {

#[verifier::external_type_specification]
#[verifier::external_body]
pub struct ExSyntaxSet(SyntaxSet);

#[verifier::external_type_specification]
#[verifier::external_body]
pub struct ExTheme(Theme);

#[verifier::external_type_specification]
#[verifier::external_body]
pub struct ExTag<'a>(Tag<'a>);

#[verifier::external_type_specification]
#[verifier::external_body]
pub struct ExTagEnd(TagEnd);

/// What the renderer reads of a Markdown event.
#[derive(Debug, Clone)]
pub enum MdEvent {
    /// A code block starts: the language written after a fence (perhaps
    /// empty), or `None` for an indented block.
    StartCodeBlock(Option<String>),
    /// A heading of the given level starts.
    StartHeading(u8),
    StartEmphasis,
    StartStrong,
    StartStrikethrough,
    StartBlockQuote,
    /// A list starts; the number of its first item when it is ordered.
    StartList(Option<u64>),
    StartItem,
    /// A link to the given address starts.
    StartLink(String),
    StartParagraph,
    /// Any other element starts.
    StartOther,
    EndCodeBlock,
    EndHeading,
    EndEmphasis,
    EndStrong,
    EndStrikethrough,
    EndBlockQuote,
    EndList,
    EndItem,
    EndLink,
    EndParagraph,
    /// Any other element ends.
    EndOther,
    Text(String),
    /// Inline code.
    Code(String),
    SoftBreak,
    HardBreak,
    /// A horizontal rule.
    Rule,
    /// Anything else, which shows nothing.
    Other,
}

/// The value of an [`MdEvent`].
pub ghost enum MdEventView {
    StartCodeBlock(Option<Seq<char>>),
    StartHeading(u8),
    StartEmphasis,
    StartStrong,
    StartStrikethrough,
    StartBlockQuote,
    StartList(Option<u64>),
    StartItem,
    StartLink(Seq<char>),
    StartParagraph,
    StartOther,
    EndCodeBlock,
    EndHeading,
    EndEmphasis,
    EndStrong,
    EndStrikethrough,
    EndBlockQuote,
    EndList,
    EndItem,
    EndLink,
    EndParagraph,
    EndOther,
    Text(Seq<char>),
    Code(Seq<char>),
    SoftBreak,
    HardBreak,
    Rule,
    Other,
}

impl View for MdEvent {
    type V = MdEventView;

    open spec fn view(&self) -> MdEventView {
        match self {
            MdEvent::StartCodeBlock(l) => MdEventView::StartCodeBlock(match l {
                Some(t) => Some(t@),
                None => None,
            }),
            MdEvent::StartHeading(h) => MdEventView::StartHeading(*h),
            MdEvent::StartEmphasis => MdEventView::StartEmphasis,
            MdEvent::StartStrong => MdEventView::StartStrong,
            MdEvent::StartStrikethrough => MdEventView::StartStrikethrough,
            MdEvent::StartBlockQuote => MdEventView::StartBlockQuote,
            MdEvent::StartList(n) => MdEventView::StartList(*n),
            MdEvent::StartItem => MdEventView::StartItem,
            MdEvent::StartLink(u) => MdEventView::StartLink(u@),
            MdEvent::StartParagraph => MdEventView::StartParagraph,
            MdEvent::StartOther => MdEventView::StartOther,
            MdEvent::EndCodeBlock => MdEventView::EndCodeBlock,
            MdEvent::EndHeading => MdEventView::EndHeading,
            MdEvent::EndEmphasis => MdEventView::EndEmphasis,
            MdEvent::EndStrong => MdEventView::EndStrong,
            MdEvent::EndStrikethrough => MdEventView::EndStrikethrough,
            MdEvent::EndBlockQuote => MdEventView::EndBlockQuote,
            MdEvent::EndList => MdEventView::EndList,
            MdEvent::EndItem => MdEventView::EndItem,
            MdEvent::EndLink => MdEventView::EndLink,
            MdEvent::EndParagraph => MdEventView::EndParagraph,
            MdEvent::EndOther => MdEventView::EndOther,
            MdEvent::Text(t) => MdEventView::Text(t@),
            MdEvent::Code(c) => MdEventView::Code(c@),
            MdEvent::SoftBreak => MdEventView::SoftBreak,
            MdEvent::HardBreak => MdEventView::HardBreak,
            MdEvent::Rule => MdEventView::Rule,
            MdEvent::Other => MdEventView::Other,
        }
    }
}

/// The values of events.
pub open spec fn events_view(v: Seq<MdEvent>) -> Seq<MdEventView> {
    v.map_values(|e: MdEvent| e@)
}

/// The events `pulldown_cmark` gives for the Markdown text `md` (with
/// strikethrough, tables and task lists enabled), each read as an
/// [`MdEvent`]: the language of a fenced code block (none for an indented
/// one), the level of a heading, the first number of an ordered list, the
/// address of a link, the text of a text or inline code node.
pub uninterp spec fn markdown_events(md: Seq<char>) -> Seq<MdEventView>;

/// Parses `md` with `pulldown_cmark::Parser::new_ext`, strikethrough,
/// tables and task lists enabled, and reads each event as an [`MdEvent`]
/// (tags through [`start_tag`] and [`end_tag`]). The contract names the
/// result.
#[verifier::external_body]
fn parse_markdown(md: &str) -> (r: Vec<MdEvent>)
    ensures
        events_view(r@) == markdown_events(md@),
{
    let opts = Options::ENABLE_STRIKETHROUGH | Options::ENABLE_TABLES | Options::ENABLE_TASKLISTS;
    Parser::new_ext(md, opts).map(|e| match e {
        Event::Start(t) => start_tag(t),
        Event::End(t) => end_tag(t),
        Event::Text(t) => MdEvent::Text(t.to_string()),
        Event::Code(t) => MdEvent::Code(t.to_string()),
        Event::SoftBreak => MdEvent::SoftBreak,
        Event::HardBreak => MdEvent::HardBreak,
        Event::Rule => MdEvent::Rule,
        _ => MdEvent::Other,
    }).collect()
}

/// Reads a `pulldown_cmark` start tag: the language of a fenced code block
/// (none for an indented one), the level of a heading, the first number of a
/// list, the address of a link. The contract states nothing of the tag.
#[verifier::external_body]
fn start_tag(t: Tag<'_>) -> (r: MdEvent) {
    match t {
        Tag::CodeBlock(CodeBlockKind::Fenced(l)) => MdEvent::StartCodeBlock(Some(l.to_string())),
        Tag::CodeBlock(CodeBlockKind::Indented) => MdEvent::StartCodeBlock(None),
        Tag::Heading { level, .. } => MdEvent::StartHeading(level as u8),
        Tag::Emphasis => MdEvent::StartEmphasis,
        Tag::Strong => MdEvent::StartStrong,
        Tag::Strikethrough => MdEvent::StartStrikethrough,
        Tag::BlockQuote(_) => MdEvent::StartBlockQuote,
        Tag::List(n) => MdEvent::StartList(n),
        Tag::Item => MdEvent::StartItem,
        Tag::Link { dest_url, .. } => MdEvent::StartLink(dest_url.to_string()),
        Tag::Paragraph => MdEvent::StartParagraph,
        _ => MdEvent::StartOther,
    }
}

/// Reads a `pulldown_cmark` end tag. The contract states nothing of the tag.
#[verifier::external_body]
fn end_tag(t: TagEnd) -> (r: MdEvent) {
    match t {
        TagEnd::CodeBlock => MdEvent::EndCodeBlock,
        TagEnd::Heading(_) => MdEvent::EndHeading,
        TagEnd::Emphasis => MdEvent::EndEmphasis,
        TagEnd::Strong => MdEvent::EndStrong,
        TagEnd::Strikethrough => MdEvent::EndStrikethrough,
        TagEnd::BlockQuote(_) => MdEvent::EndBlockQuote,
        TagEnd::List(_) => MdEvent::EndList,
        TagEnd::Item => MdEvent::EndItem,
        TagEnd::Link => MdEvent::EndLink,
        TagEnd::Paragraph => MdEvent::EndParagraph,
        _ => MdEvent::EndOther,
    }
}

/// What `syntect` makes of `code` in the syntax it finds for the token
/// `lang`, with its default syntaxes and its `base16-ocean.dark` theme: `None`
/// when it knows no such syntax; else, for each line of the code, its pieces,
/// each with the red, green and blue of its colour, or `None` for a line it
/// could not highlight.
pub uninterp spec fn highlighted_in(code: Seq<char>, lang: Seq<char>) -> Option<Seq<Option<Seq<(Seq<char>, u8, u8, u8)>>>>;

/// What `syntect` makes of `code` as plain text, line by line as
/// [`highlighted_in`] gives it.
pub uninterp spec fn highlighted_plain(code: Seq<char>) -> Seq<Option<Seq<(Seq<char>, u8, u8, u8)>>>;

/// The lines of `code` highlighted in the language `lang`, as plain text when
/// no language is given or it is unknown; a line that could not be
/// highlighted has no pieces.
pub open spec fn highlighted(code: Seq<char>, lang: Option<Seq<char>>) -> Seq<Seq<(Seq<char>, u8, u8, u8)>> {
    let raw = match lang {
        Some(l) => match highlighted_in(code, l) {
            Some(h) => h,
            None => highlighted_plain(code),
        },
        None => highlighted_plain(code),
    };
    lines_or_empty(raw)
}

/// Each line, with no pieces where it could not be highlighted.
pub open spec fn lines_or_empty(raw: Seq<Option<Seq<(Seq<char>, u8, u8, u8)>>>) -> Seq<Seq<(Seq<char>, u8, u8, u8)>> {
    raw.map_values(|o: Option<Seq<(Seq<char>, u8, u8, u8)>>| match o {
        Some(l) => l,
        None => Seq::empty(),
    })
}

/// The values of highlighted lines, some perhaps missing.
pub open spec fn raw_highlight_view(v: Seq<Option<Vec<(String, u8, u8, u8)>>>) -> Seq<Option<Seq<(Seq<char>, u8, u8, u8)>>> {
    v.map_values(|o: Option<Vec<(String, u8, u8, u8)>>| match o {
        Some(l) => Some(l@.map_values(|p: (String, u8, u8, u8)| (p.0@, p.1, p.2, p.3))),
        None => None,
    })
}

/// The values of highlighted lines.
pub open spec fn highlight_view(v: Seq<Vec<(String, u8, u8, u8)>>) -> Seq<Seq<(Seq<char>, u8, u8, u8)>> {
    v.map_values(|l: Vec<(String, u8, u8, u8)>| l@.map_values(|p: (String, u8, u8, u8)| (p.0@, p.1, p.2, p.3)))
}

/// Turns Markdown into lines of styled text.
pub struct MarkdownRenderer {
    syntax_set: SyntaxSet,
    theme: Theme,
}

impl MarkdownRenderer {
    /// A renderer with `syntect`'s default syntaxes and its
    /// `base16-ocean.dark` theme (the first default theme if that one were
    /// missing).
    #[verifier::external_body]
    pub fn new() -> Self {
        let syntax_set = SyntaxSet::load_defaults_newlines();
        let theme_set = ThemeSet::load_defaults();
        let theme = theme_set.themes.get("base16-ocean.dark").cloned()
            .unwrap_or_else(|| theme_set.themes.values().next().cloned().unwrap());
        MarkdownRenderer { syntax_set, theme }
    }

    /// Highlights `code` with `HighlightLines::highlight_line`, line by line
    /// as `str::lines` cuts it, in the syntax that `find_syntax_by_token`
    /// finds for `lang`; `None` when it finds none. The contract names the
    /// result.
    #[verifier::external_body]
    fn highlight_with(&self, code: &str, lang: &str) -> (r: Option<Vec<Option<Vec<(String, u8, u8, u8)>>>>)
        ensures
            match r {
                Some(v) => highlighted_in(code@, lang@) == Some(raw_highlight_view(v@)),
                None => highlighted_in(code@, lang@) is None,
            },
    {
        let syntax = self.syntax_set.find_syntax_by_token(lang)?;
        let mut h = HighlightLines::new(syntax, &self.theme);
        Some(code.lines().map(|line| h.highlight_line(line, &self.syntax_set).ok().map(|v| v.into_iter()
            .map(|(st, t)| (t.to_string(), st.foreground.r, st.foreground.g, st.foreground.b)).collect())).collect())
    }

    /// Highlights `code` as [`MarkdownRenderer::highlight_with`] does, in the
    /// syntax of `find_syntax_plain_text`. The contract names the result.
    #[verifier::external_body]
    fn highlight_plain(&self, code: &str) -> (r: Vec<Option<Vec<(String, u8, u8, u8)>>>)
        ensures
            raw_highlight_view(r@) == highlighted_plain(code@),
    {
        let syntax = self.syntax_set.find_syntax_plain_text();
        let mut h = HighlightLines::new(syntax, &self.theme);
        code.lines().map(|line| h.highlight_line(line, &self.syntax_set).ok().map(|v| v.into_iter()
            .map(|(st, t)| (t.to_string(), st.foreground.r, st.foreground.g, st.foreground.b)).collect())).collect()
    }

    /// Highlights `code` in the language `lang`, as plain text when none is
    /// given or it is unknown.
    fn highlight(&self, code: &str, lang: Option<&str>) -> (r: Vec<Vec<(String, u8, u8, u8)>>)
        ensures
            highlight_view(r@) == highlighted(code@, match lang { Some(l) => Some(l@), None => None }),
    {
        let raw = match lang {
            Some(l) => match self.highlight_with(code, l) {
                Some(h) => h,
                None => self.highlight_plain(code),
            },
            None => self.highlight_plain(code),
        };
        let ghost rv = raw_highlight_view(raw@);
        let mut out: Vec<Vec<(String, u8, u8, u8)>> = Vec::new();
        let mut rest = raw;
        let ghost n = rv.len();
        while rest.len() > 0
            invariant
                out.len() + rest.len() == n,
                n == rv.len(),
                raw_highlight_view(rest@) == rv.skip(out.len() as int),
                highlight_view(out@) == lines_or_empty(rv.take(out.len() as int)),
            decreases rest.len(),
        {
            let ghost r0 = rest@;
            let ghost k = out.len() as int;
            let line = rest.remove(0);
            assert(rest@ =~= r0.drop_first());
            assert(raw_highlight_view(r0)[0] == rv[k]);
            assert(raw_highlight_view(rest@) =~= rv.skip(k + 1)) by {
                assert forall|j: int| 0 <= j < rest@.len() implies #[trigger] raw_highlight_view(rest@)[j] == rv.skip(k + 1)[j] by {
                    assert(rest@[j] == r0[j + 1]);
                    assert(raw_highlight_view(r0)[j + 1] == rv.skip(k)[j + 1]);
                }
            }
            let pieces: Vec<(String, u8, u8, u8)> = match line {
                Some(l) => l,
                None => Vec::new(),
            };
            let ghost before = out@;
            out.push(pieces);
            assert(highlight_view(out@) =~= lines_or_empty(rv.take(k + 1))) by {
                assert(rv.take(k + 1) =~= rv.take(k).push(rv[k]));
                assert(out@ =~= before.push(pieces));
                assert(highlight_view(out@)[k] =~= lines_or_empty(rv.take(k + 1))[k]);
                assert forall|j: int| 0 <= j < k + 1 implies #[trigger] highlight_view(out@)[j]
                    == lines_or_empty(rv.take(k + 1))[j] by {
                    if j < k {
                        assert(highlight_view(before)[j] == lines_or_empty(rv.take(k))[j]);
                    }
                }
            }
        }
        assert(rv.take(n as int) =~= rv);
        out
    }
}


/// Where the renderer stands after some events: the lines done, the pieces
/// of the line under way, the code block being gathered, the emphasis in
/// force, the heading level, the next number of an ordered list, and the
/// address of the open link.
pub ghost struct MdState {
    pub lines: Seq<Seq<SpanView>>,
    pub current: Seq<SpanView>,
    pub in_code: bool,
    pub code_lang: Seq<char>,
    pub code_buf: Seq<char>,
    pub bold: bool,
    pub italic: bool,
    pub strike: bool,
    pub heading: Option<u8>,
    pub ordered: Option<u64>,
    pub link_url: Option<Seq<char>>,
}

/// Before any event.
pub open spec fn md_initial() -> MdState {
    MdState {
        lines: Seq::empty(),
        current: Seq::empty(),
        in_code: false,
        code_lang: Seq::empty(),
        code_buf: Seq::empty(),
        bold: false,
        italic: false,
        strike: false,
        heading: None,
        ordered: None,
        link_url: None,
    }
}

/// The line under way closed, when it has pieces.
pub open spec fn flushed(s: MdState) -> MdState {
    if s.current.len() > 0 {
        MdState { lines: s.lines.push(s.current), current: Seq::empty(), ..s }
    } else {
        s
    }
}

/// A piece added to the line under way.
pub open spec fn with_span(s: MdState, sp: SpanView) -> MdState {
    MdState { current: s.current.push(sp), ..s }
}

/// The colour of a heading of level `level`.
pub open spec fn heading_tint(level: u8) -> Tint {
    if level == 1 {
        Tint::Cyan
    } else if level == 2 {
        Tint::Blue
    } else {
        Tint::Green
    }
}

/// The style of text: a heading's colour and bold, and the emphasis in force.
pub open spec fn text_style(s: MdState) -> SpanStyle {
    SpanStyle {
        fg: match s.heading {
            Some(l) => Some(heading_tint(l)),
            None => None,
        },
        bold: s.heading is Some || s.bold,
        italic: s.italic,
        underlined: false,
        crossed_out: s.strike,
    }
}

/// The style of link brackets.
pub open spec fn link_style() -> SpanStyle {
    SpanStyle { underlined: true, ..tinted(Tint::Blue) }
}

/// The lines of a code block: each highlighted line, its pieces in their
/// colours; one empty line when the code has none.
pub open spec fn code_block_lines(code: Seq<char>, lang: Seq<char>) -> Seq<Seq<SpanView>> {
    let h = highlighted(code, if lang.len() == 0 { None } else { Some(lang) });
    if h.len() == 0 {
        seq![Seq::empty()]
    } else {
        h.map_values(|l: Seq<(Seq<char>, u8, u8, u8)>| l.map_values(|p: (Seq<char>, u8, u8, u8)| (p.0, tinted(Tint::Rgb(p.1, p.2, p.3)))))
    }
}

/// The number after `i` in an ordered list (wrapping around at the end of
/// `u64`).
pub open spec fn next_number(i: u64) -> u64 {
    if i < u64::MAX { (i + 1) as u64 } else { 0 }
}

/// What one event does.
pub open spec fn md_step(s: MdState, e: MdEventView) -> MdState {
    match e {
        MdEventView::StartCodeBlock(lang) => MdState {
            in_code: true,
            code_lang: match lang {
                Some(l) => l,
                None => Seq::empty(),
            },
            code_buf: Seq::empty(),
            ..flushed(s)
        },
        MdEventView::StartHeading(level) => {
            let f = flushed(s);
            MdState { lines: if f.lines.len() > 0 { f.lines.push(Seq::empty()) } else { f.lines }, heading: Some(level), ..f }
        },
        MdEventView::StartEmphasis => MdState { italic: true, ..s },
        MdEventView::StartStrong => MdState { bold: true, ..s },
        MdEventView::StartStrikethrough => MdState { strike: true, ..s },
        MdEventView::StartBlockQuote => with_span(flushed(s), ("│ "@, tinted(Tint::DarkGray))),
        MdEventView::StartList(start) => MdState { ordered: start, ..flushed(s) },
        MdEventView::StartItem => {
            let f = flushed(s);
            match f.ordered {
                Some(i) => MdState {
                    ordered: Some(next_number(i)),
                    ..with_span(f, (decimal(i as nat) + ". "@, tinted(Tint::Cyan)))
                },
                None => with_span(f, ("• "@, tinted(Tint::Yellow))),
            }
        },
        MdEventView::StartLink(url) => MdState { link_url: Some(url), ..with_span(s, ("["@, link_style())) },
        MdEventView::StartParagraph => flushed(s),
        MdEventView::StartOther => s,
        MdEventView::EndCodeBlock => {
            if s.in_code {
                MdState {
                    lines: s.lines + code_block_lines(s.code_buf, s.code_lang),
                    in_code: false,
                    code_lang: Seq::empty(),
                    code_buf: Seq::empty(),
                    ..s
                }
            } else {
                s
            }
        },
        MdEventView::EndHeading => {
            let f = flushed(s);
            MdState { lines: f.lines.push(Seq::empty()), heading: None, ..f }
        },
        MdEventView::EndEmphasis => MdState { italic: false, ..s },
        MdEventView::EndStrong => MdState { bold: false, ..s },
        MdEventView::EndStrikethrough => MdState { strike: false, ..s },
        MdEventView::EndBlockQuote => flushed(s),
        MdEventView::EndList => MdState { ordered: None, ..flushed(s) },
        MdEventView::EndItem => flushed(s),
        MdEventView::EndLink => match s.link_url {
            Some(url) => MdState { link_url: None, ..with_span(s, ("]("@ + url + ")"@, link_style())) },
            None => s,
        },
        MdEventView::EndParagraph => flushed(s),
        MdEventView::EndOther => s,
        MdEventView::Text(t) => {
            if s.in_code {
                MdState { code_buf: s.code_buf + t, ..s }
            } else {
                with_span(s, (t, text_style(s)))
            }
        },
        MdEventView::Code(c) => with_span(s, (c, SpanStyle { italic: true, ..tinted(Tint::LightGreen) })),
        MdEventView::SoftBreak => {
            if s.in_code {
                MdState { code_buf: s.code_buf.push('\n'), ..s }
            } else {
                with_span(s, (" "@, no_style()))
            }
        },
        MdEventView::HardBreak => {
            if s.in_code {
                MdState { code_buf: s.code_buf.push('\n'), ..s }
            } else {
                flushed(s)
            }
        },
        MdEventView::Rule => {
            let f = flushed(s);
            MdState { lines: f.lines.push(seq![(repeat('─', 60), tinted(Tint::DarkGray))]), ..f }
        },
        MdEventView::Other => s,
    }
}

/// The events applied in order.
pub open spec fn md_run(s: MdState, evs: Seq<MdEventView>) -> MdState
    decreases evs.len(),
{
    if evs.len() == 0 {
        s
    } else {
        md_step(md_run(s, evs.drop_last()), evs.last())
    }
}

/// The lines of a Markdown text with the events `evs`: all the lines, the
/// last closed too; one empty line when there is none.
pub open spec fn md_lines(evs: Seq<MdEventView>) -> Seq<Seq<SpanView>> {
    let f = flushed(md_run(md_initial(), evs));
    if f.lines.len() == 0 {
        seq![Seq::empty()]
    } else {
        f.lines
    }
}

/// The renderer's state while it reads the events.
struct RenderState {
    lines: Vec<Vec<StyledSpan>>,
    current: Vec<StyledSpan>,
    in_code: bool,
    code_lang: String,
    code_buf: String,
    bold: bool,
    italic: bool,
    strike: bool,
    heading: Option<u8>,
    ordered: Option<u64>,
    link_url: Option<String>,
}

impl View for RenderState {
    type V = MdState;

    closed spec fn view(&self) -> MdState {
        MdState {
            lines: lines_view(self.lines@),
            current: spans_view(self.current@),
            in_code: self.in_code,
            code_lang: self.code_lang@,
            code_buf: self.code_buf@,
            bold: self.bold,
            italic: self.italic,
            strike: self.strike,
            heading: self.heading,
            ordered: self.ordered,
            link_url: match self.link_url {
                Some(u) => Some(u@),
                None => None,
            },
        }
    }
}

impl RenderState {
    fn new() -> (r: Self)
        ensures
            r@ == md_initial(),
    {
        let r = RenderState {
            lines: Vec::new(),
            current: Vec::new(),
            in_code: false,
            code_lang: String::new(),
            code_buf: String::new(),
            bold: false,
            italic: false,
            strike: false,
            heading: None,
            ordered: None,
            link_url: None,
        };
        assert(r@.lines =~= Seq::<Seq<SpanView>>::empty());
        assert(r@.current =~= Seq::<SpanView>::empty());
        r
    }

    /// Closes the line under way, when it has pieces.
    fn flush(&mut self)
        ensures
            final(self)@ == flushed(old(self)@),
    {
        if self.current.len() > 0 {
            let mut done: Vec<StyledSpan> = Vec::new();
            std::mem::swap(&mut done, &mut self.current);
            push_line(&mut self.lines, done);
            assert(spans_view(self.current@) =~= Seq::<SpanView>::empty());
        }
    }

    /// Adds a piece to the line under way.
    fn add(&mut self, sp: StyledSpan)
        ensures
            final(self)@ == with_span(old(self)@, sp@),
    {
        push_span(&mut self.current, sp);
    }

    /// The style of text.
    fn style(&self) -> (r: SpanStyle)
        ensures
            r == text_style(self@),
    {
        let color = match self.heading {
            Some(l) => Some(if l == 1 { Tint::Cyan } else if l == 2 { Tint::Blue } else { Tint::Green }),
            None => None,
        };
        SpanStyle {
            fg: color,
            bold: self.heading.is_some() || self.bold,
            italic: self.italic,
            underlined: false,
            crossed_out: self.strike,
        }
    }
}

/// The lines of a highlighted code block, in their colours.
fn code_lines(h: Vec<Vec<(String, u8, u8, u8)>>) -> (r: Vec<Vec<StyledSpan>>)
    ensures
        lines_view(r@) == (if highlight_view(h@).len() == 0 {
            seq![Seq::<SpanView>::empty()]
        } else {
            highlight_view(h@).map_values(|l: Seq<(Seq<char>, u8, u8, u8)>| l.map_values(|p: (Seq<char>, u8, u8, u8)| (p.0, tinted(Tint::Rgb(p.1, p.2, p.3)))))
        }),
{
    let ghost hv = highlight_view(h@);
    let ghost want = hv.map_values(|l: Seq<(Seq<char>, u8, u8, u8)>| l.map_values(|p: (Seq<char>, u8, u8, u8)| (p.0, tinted(Tint::Rgb(p.1, p.2, p.3)))));
    let mut out: Vec<Vec<StyledSpan>> = Vec::new();
    if h.len() == 0 {
        let empty: Vec<StyledSpan> = Vec::new();
        assert(spans_view(empty@) =~= Seq::<SpanView>::empty());
        push_line(&mut out, empty);
        assert(lines_view(out@) =~= seq![Seq::<SpanView>::empty()]);
        return out;
    }
    let mut i: usize = 0;
    while i < h.len()
        invariant
            i <= h.len(),
            hv == highlight_view(h@),
            lines_view(out@) == want.take(i as int),
            want == hv.map_values(|l: Seq<(Seq<char>, u8, u8, u8)>| l.map_values(|p: (Seq<char>, u8, u8, u8)| (p.0, tinted(Tint::Rgb(p.1, p.2, p.3))))),
        decreases h.len() - i,
    {
        let row = &h[i];
        let mut line: Vec<StyledSpan> = Vec::new();
        let mut j: usize = 0;
        while j < row.len()
            invariant
                j <= row.len(),
                row == h@[i as int],
                hv == highlight_view(h@),
                i < h.len(),
                spans_view(line@) == want[i as int].take(j as int),
                want == hv.map_values(|l: Seq<(Seq<char>, u8, u8, u8)>| l.map_values(|p: (Seq<char>, u8, u8, u8)| (p.0, tinted(Tint::Rgb(p.1, p.2, p.3))))),
            decreases row.len() - j,
        {
            let (ref t, r, g, b) = row[j];
            push_span(&mut line, span_str(t.as_str(), fg(Tint::Rgb(r, g, b))));
            assert(want[i as int].take(j + 1) =~= want[i as int].take(j as int).push(want[i as int][j as int]));
            j += 1;
        }
        assert(want[i as int].take(row.len() as int) =~= want[i as int]);
        push_line(&mut out, line);
        assert(want.take(i + 1) =~= want.take(i as int).push(want[i as int]));
        i += 1;
    }
    assert(want.take(h.len() as int) =~= want);
    out
}


impl MarkdownRenderer {
    /// Applies one event to the renderer's state.
    fn step(&self, st: &mut RenderState, e: &MdEvent)
        ensures
            final(st)@ == md_step(old(st)@, e@),
    {
        match e {
            MdEvent::StartCodeBlock(lang) => {
                st.flush();
                st.in_code = true;
                st.code_lang = match lang {
                    Some(l) => owned(l.as_str()),
                    None => String::new(),
                };
                st.code_buf = String::new();
            },
            MdEvent::StartHeading(level) => {
                st.flush();
                if st.lines.len() > 0 {
                    let empty: Vec<StyledSpan> = Vec::new();
                    assert(spans_view(empty@) =~= Seq::<SpanView>::empty());
                    push_line(&mut st.lines, empty);
                }
                st.heading = Some(*level);
            },
            MdEvent::StartEmphasis => {
                st.italic = true;
            },
            MdEvent::StartStrong => {
                st.bold = true;
            },
            MdEvent::StartStrikethrough => {
                st.strike = true;
            },
            MdEvent::StartBlockQuote => {
                st.flush();
                st.add(span_str("│ ", fg(Tint::DarkGray)));
            },
            MdEvent::StartList(start) => {
                st.flush();
                st.ordered = *start;
            },
            MdEvent::StartItem => {
                st.flush();
                match st.ordered {
                    Some(i) => {
                        let mut label = string_of(decimal_exec(i).as_slice());
                        push_str(&mut label, ". ");
                        st.add(span(label, fg(Tint::Cyan)));
                        st.ordered = Some(i.wrapping_add(1));
                    },
                    None => {
                        st.add(span_str("• ", fg(Tint::Yellow)));
                    },
                }
            },
            MdEvent::StartLink(url) => {
                st.add(span_str("[", SpanStyle { underlined: true, ..fg(Tint::Blue) }));
                st.link_url = Some(owned(url.as_str()));
            },
            MdEvent::StartParagraph => {
                st.flush();
            },
            MdEvent::StartOther => {},
            MdEvent::EndCodeBlock => {
                if st.in_code {
                    let h = if st.code_lang.as_str().is_empty() {
                        self.highlight(st.code_buf.as_str(), None)
                    } else {
                        self.highlight(st.code_buf.as_str(), Some(st.code_lang.as_str()))
                    };
                    let more = code_lines(h);
                    extend_lines(&mut st.lines, more);
                    st.in_code = false;
                    st.code_lang = String::new();
                    st.code_buf = String::new();
                }
            },
            MdEvent::EndHeading => {
                st.flush();
                let empty: Vec<StyledSpan> = Vec::new();
                assert(spans_view(empty@) =~= Seq::<SpanView>::empty());
                push_line(&mut st.lines, empty);
                st.heading = None;
            },
            MdEvent::EndEmphasis => {
                st.italic = false;
            },
            MdEvent::EndStrong => {
                st.bold = false;
            },
            MdEvent::EndStrikethrough => {
                st.strike = false;
            },
            MdEvent::EndBlockQuote => {
                st.flush();
            },
            MdEvent::EndList => {
                st.flush();
                st.ordered = None;
            },
            MdEvent::EndItem => {
                st.flush();
            },
            MdEvent::EndLink => {
                let url = st.link_url.take();
                match url {
                    Some(u) => {
                        let mut t = owned("](");
                        push_str(&mut t, u.as_str());
                        push_str(&mut t, ")");
                        st.add(span(t, SpanStyle { underlined: true, ..fg(Tint::Blue) }));
                    },
                    None => {},
                }
            },
            MdEvent::EndParagraph => {
                st.flush();
            },
            MdEvent::EndOther => {},
            MdEvent::Text(t) => {
                if st.in_code {
                    push_str(&mut st.code_buf, t.as_str());
                } else {
                    let style = st.style();
                    st.add(span_str(t.as_str(), style));
                }
            },
            MdEvent::Code(c) => {
                st.add(span_str(c.as_str(), SpanStyle { italic: true, ..fg(Tint::LightGreen) }));
            },
            MdEvent::SoftBreak => {
                if st.in_code {
                    push_char(&mut st.code_buf, '\n');
                } else {
                    st.add(span_str(" ", plain_style()));
                }
            },
            MdEvent::HardBreak => {
                if st.in_code {
                    push_char(&mut st.code_buf, '\n');
                } else {
                    st.flush();
                }
            },
            MdEvent::Rule => {
                st.flush();
                let mut l: Vec<StyledSpan> = Vec::new();
                push_span(&mut l, span(repeat_char('─', 60), fg(Tint::DarkGray)));
                assert(spans_view(l@) =~= seq![(repeat('─', 60), tinted(Tint::DarkGray))]);
                push_line(&mut st.lines, l);
            },
            MdEvent::Other => {},
        }
    }

    /// The lines of a Markdown text given by its events.
    pub fn render_events(&self, events: &Vec<MdEvent>) -> (r: Vec<Vec<StyledSpan>>)
        ensures
            lines_view(r@) == md_lines(events_view(events@)),
    {
        let mut st = RenderState::new();
        let mut i: usize = 0;
        while i < events.len()
            invariant
                i <= events.len(),
                st@ == md_run(md_initial(), events_view(events@).take(i as int)),
            decreases events.len() - i,
        {
            self.step(&mut st, &events[i]);
            assert(events_view(events@).take(i + 1).drop_last() =~= events_view(events@).take(i as int));
            i += 1;
        }
        assert(events_view(events@).take(events.len() as int) =~= events_view(events@));
        st.flush();
        let mut lines = st.lines;
        if lines.len() == 0 {
            let empty: Vec<StyledSpan> = Vec::new();
            assert(spans_view(empty@) =~= Seq::<SpanView>::empty());
            push_line(&mut lines, empty);
            assert(lines_view(lines@) =~= seq![Seq::<SpanView>::empty()]);
        }
        lines
    }

    /// The lines of a Markdown text, parsed with `pulldown_cmark`.
    pub fn render(&self, markdown: &str) -> (r: Vec<Vec<StyledSpan>>)
        ensures
            lines_view(r@) == md_lines(markdown_events(markdown@)),
    {
        let events = parse_markdown(markdown);
        self.render_events(&events)
    }
}

/// Adds the lines of `more` after those of `lines`.
pub(crate) fn extend_lines(lines: &mut Vec<Vec<StyledSpan>>, more: Vec<Vec<StyledSpan>>)
    ensures
        lines_view(final(lines)@) == lines_view(old(lines)@) + lines_view(more@),
{
    let ghost base = lines_view(lines@);
    let mut i: usize = 0;
    while i < more.len()
        invariant
            i <= more.len(),
            lines_view(lines@) == base + lines_view(more@).take(i as int),
        decreases more.len() - i,
    {
        push_line(lines, clone_line(&more[i]));
        assert(lines_view(more@).take(i + 1) =~= lines_view(more@).take(i as int).push(lines_view(more@)[i as int]));
        i += 1;
    }
    assert(lines_view(more@).take(more.len() as int) =~= lines_view(more@));
}

/// An equal copy of a line.
pub(crate) fn clone_line(l: &Vec<StyledSpan>) -> (r: Vec<StyledSpan>)
    ensures
        spans_view(r@) == spans_view(l@),
{
    let mut out: Vec<StyledSpan> = Vec::new();
    let mut i: usize = 0;
    while i < l.len()
        invariant
            i <= l.len(),
            spans_view(out@) == spans_view(l@).take(i as int),
        decreases l.len() - i,
    {
        push_span(&mut out, crate::tui::styled::copy_span(&l[i]));
        assert(spans_view(l@).take(i + 1) =~= spans_view(l@).take(i as int).push(spans_view(l@)[i as int]));
        i += 1;
    }
    assert(spans_view(l@).take(l.len() as int) =~= spans_view(l@));
    out
}

} // verus!
