//! Text as the interface draws it: pieces of text, each with a colour and
//! emphasis, gathered into lines.
use vstd::prelude::*;
use crate::text::owned;
use crate::width::{str_columns, str_width};

verus! {

/// A colour of the terminal.
#[derive(Debug, Clone, Copy, PartialEq, Eq, Structural)]
pub enum Tint {
    Black,
    Red,
    Green,
    Yellow,
    Blue,
    Magenta,
    Cyan,
    Gray,
    DarkGray,
    LightGreen,
    White,
    Rgb(u8, u8, u8),
}

/// How a piece of text is drawn: its colour, if any, and its emphasis.
#[derive(Debug, Clone, Copy, PartialEq, Eq, Structural)]
pub struct SpanStyle {
    pub fg: Option<Tint>,
    pub bold: bool,
    pub italic: bool,
    pub underlined: bool,
    pub crossed_out: bool,
}

/// The style with nothing set.
pub open spec fn no_style() -> SpanStyle {
    SpanStyle { fg: None, bold: false, italic: false, underlined: false, crossed_out: false }
}

/// The style with only the colour `t`.
pub open spec fn tinted(t: Tint) -> SpanStyle {
    SpanStyle { fg: Some(t), ..no_style() }
}

/// The style with the colour `t`, in bold.
pub open spec fn tinted_bold(t: Tint) -> SpanStyle {
    SpanStyle { fg: Some(t), bold: true, ..no_style() }
}

/// The style with nothing set.
pub fn plain_style() -> (r: SpanStyle)
    ensures
        r == no_style(),
{
    SpanStyle { fg: None, bold: false, italic: false, underlined: false, crossed_out: false }
}

/// The style with only the colour `t`.
pub fn fg(t: Tint) -> (r: SpanStyle)
    ensures
        r == tinted(t),
{
    SpanStyle { fg: Some(t), bold: false, italic: false, underlined: false, crossed_out: false }
}

/// The style with the colour `t`, in bold.
pub fn fg_bold(t: Tint) -> (r: SpanStyle)
    ensures
        r == tinted_bold(t),
{
    SpanStyle { fg: Some(t), bold: true, italic: false, underlined: false, crossed_out: false }
}

/// A piece of text and how it is drawn.
#[derive(Debug, Clone)]
pub struct StyledSpan {
    pub text: String,
    pub style: SpanStyle,
}

/// The value of a piece: its text and its style.
pub type SpanView = (Seq<char>, SpanStyle);

impl View for StyledSpan {
    type V = SpanView;

    open spec fn view(&self) -> SpanView {
        (self.text@, self.style)
    }
}

/// The values of the pieces of a line.
pub open spec fn spans_view(v: Seq<StyledSpan>) -> Seq<SpanView> {
    v.map_values(|s: StyledSpan| s@)
}

/// The values of lines.
pub open spec fn lines_view(v: Seq<Vec<StyledSpan>>) -> Seq<Seq<SpanView>> {
    v.map_values(|l: Vec<StyledSpan>| spans_view(l@))
}

/// The columns that the pieces take, one after the other.
pub open spec fn spans_columns(v: Seq<SpanView>) -> nat
    decreases v.len(),
{
    if v.len() == 0 {
        0
    } else {
        spans_columns(v.drop_last()) + str_columns(v.last().0) as nat
    }
}

/// `n` held in a `usize`, the largest one when it does not fit.
pub open spec fn capped(n: nat) -> nat {
    if n <= usize::MAX { n } else { usize::MAX as nat }
}

/// A piece with the given text and style.
pub fn span(text: String, style: SpanStyle) -> (r: StyledSpan)
    ensures
        r@ == (text@, style),
{
    StyledSpan { text, style }
}

/// A piece with the given text and style.
pub fn span_str(text: &str, style: SpanStyle) -> (r: StyledSpan)
    ensures
        r@ == (text@, style),
{
    StyledSpan { text: owned(text), style }
}

/// An equal copy of a piece.
pub fn copy_span(s: &StyledSpan) -> (r: StyledSpan)
    ensures
        r@ == s@,
{
    StyledSpan { text: owned(s.text.as_str()), style: s.style }
}

/// Adds a piece at the end of a line.
pub fn push_span(line: &mut Vec<StyledSpan>, s: StyledSpan)
    ensures
        spans_view(final(line)@) == spans_view(old(line)@).push(s@),
{
    let ghost before = line@;
    line.push(s);
    assert(spans_view(line@) =~= spans_view(before).push(s@));
}

/// Adds the pieces of `more` at the end of a line.
pub fn append_spans(line: &mut Vec<StyledSpan>, more: Vec<StyledSpan>)
    ensures
        spans_view(final(line)@) == spans_view(old(line)@) + spans_view(more@),
{
    let ghost start = spans_view(line@);
    let mut i: usize = 0;
    while i < more.len()
        invariant
            i <= more.len(),
            spans_view(line@) == start + spans_view(more@).take(i as int),
        decreases more.len() - i,
    {
        let s = copy_span(&more[i]);
        push_span(line, s);
        i += 1;
        assert(spans_view(line@) =~= start + spans_view(more@).take(i as int));
    }
    assert(spans_view(more@).take(more.len() as int) =~= spans_view(more@));
}

/// Adds a line at the end of a list of lines.
pub fn push_line(lines: &mut Vec<Vec<StyledSpan>>, l: Vec<StyledSpan>)
    ensures
        lines_view(final(lines)@) == lines_view(old(lines)@).push(spans_view(l@)),
{
    let ghost before = lines@;
    lines.push(l);
    assert(lines_view(lines@) =~= lines_view(before).push(spans_view(l@)));
}

/// The columns that the pieces of a line take, the largest `usize` when they
/// take more.
pub fn line_width(line: &Vec<StyledSpan>) -> (r: usize)
    ensures
        r == capped(spans_columns(spans_view(line@))),
{
    let ghost v = spans_view(line@);
    let mut total: usize = 0;
    let mut i: usize = 0;
    while i < line.len()
        invariant
            i <= line.len(),
            v == spans_view(line@),
            total == capped(spans_columns(v.take(i as int))),
        decreases line.len() - i,
    {
        let w = str_width(line[i].text.as_str());
        assert(v.take(i + 1).drop_last() =~= v.take(i as int));
        assert(v.take(i + 1).last() == line@[i as int]@);
        total = total.saturating_add(w);
        i += 1;
    }
    assert(v.take(line.len() as int) =~= v);
    total
}

/// `n` spaces.
pub open spec fn blank(n: nat) -> Seq<char> {
    Seq::new(n, |i: int| ' ')
}

/// The pieces of a line with, between its left and right parts, as many
/// spaces as fill a line `total` columns wide (none when they do not fit).
pub open spec fn filled_between(left: Seq<SpanView>, right: Seq<SpanView>, total: nat) -> Seq<SpanView> {
    let used = spans_columns(left) + spans_columns(right);
    left + (if used < total { seq![(blank((total - used) as nat), no_style())] } else { Seq::empty() }) + right
}

/// Joins the left and right parts of a line `total` columns wide, filling the
/// columns between them with spaces.
pub fn fill_between(left: Vec<StyledSpan>, right: Vec<StyledSpan>, total: usize) -> (r: Vec<StyledSpan>)
    ensures
        spans_view(r@) == filled_between(spans_view(left@), spans_view(right@), total as nat),
{
    let lw = line_width(&left);
    let rw = line_width(&right);
    let ghost lt = spans_columns(spans_view(left@));
    let ghost rt = spans_columns(spans_view(right@));
    let used = lw.saturating_add(rw);
    let mut line = left;
    if used < total {
        assert(lt + rt == used);
        push_span(&mut line, StyledSpan { text: spaces(total - used), style: plain_style() });
    } else {
        assert(lt + rt >= total);
    }
    append_spans(&mut line, right);
    line
}

/// A string of `n` spaces.
pub fn spaces(n: usize) -> (r: String)
    ensures
        r@ == blank(n as nat),
{
    let mut r = String::new();
    let mut i: usize = 0;
    while i < n
        invariant
            i <= n,
            r@ == blank(i as nat),
        decreases n - i,
    {
        crate::text::push_char(&mut r, ' ');
        i += 1;
        assert(r@ =~= blank(i as nat));
    }
    r
}

} // verus!
