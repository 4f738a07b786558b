//! The title line at the top of the interface, with the gauge of the context.
use vstd::prelude::*;
use crate::text::{chars_of, decimal, decimal_exec, owned, push_char, push_str};
use crate::width::{columns_of, columns_or_zero};
use crate::tui::styled::{
    fg, fg_bold, fill_between, filled_between, no_style, plain_style, push_span, span, span_str, spans_view,
    tinted, tinted_bold, SpanView, StyledSpan,
};
use crate::tui::theme::{bar_tint, context_bar_color, BORDER, PRIMARY, SECONDARY, TEXT, TEXT_MUTED};

verus! {

/// Cells of the context gauge.
pub const BAR_WIDTH: usize = 10;

/// The state of the title line.
pub struct Header {
    pub session_title: String,
    pub model: String,
    pub context_pct: u8,
    pub streaming: bool,
    /// The frame of the spinner shown while streaming.
    pub spinner_tick: u8,
}

/// The value of a [`Header`].
pub ghost struct HeaderView {
    pub session_title: Seq<char>,
    pub model: Seq<char>,
    pub context_pct: nat,
    pub streaming: bool,
    pub spinner_tick: nat,
}

impl View for Header {
    type V = HeaderView;

    open spec fn view(&self) -> HeaderView {
        HeaderView {
            session_title: self.session_title@,
            model: self.model@,
            context_pct: self.context_pct as nat,
            streaming: self.streaming,
            spinner_tick: self.spinner_tick as nat,
        }
    }
}

/// `c` repeated `n` times.
pub open spec fn repeat(c: char, n: nat) -> Seq<char> {
    Seq::new(n, |i: int| c)
}

/// The filled cells of the gauge for `pct` percent.
pub open spec fn filled_cells(pct: nat) -> nat {
    pct * 10 / 100
}

/// The gauge for `pct` percent: filled cells, then empty ones.
pub open spec fn gauge(pct: nat) -> Seq<char> {
    repeat('▓', filled_cells(pct)) + repeat('░', if filled_cells(pct) <= 10 { (10 - filled_cells(pct)) as nat } else { 0 })
}

/// `s` cut to `max_width` columns from the left: characters are kept while
/// they fit, `width` columns being used already; an ellipsis marks a cut.
pub open spec fn truncated_right(s: Seq<char>, max_width: nat, width: nat) -> Seq<char>
    decreases s.len(),
{
    if s.len() == 0 {
        Seq::empty()
    } else {
        let w = columns_or_zero(s[0]);
        if width + w > max_width {
            "…"@
        } else {
            seq![s[0]] + truncated_right(s.drop_first(), max_width, width + w)
        }
    }
}

/// Cuts `s` to `max_width` columns, marking a cut with an ellipsis.
pub fn truncate_str(s: &str, max_width: usize) -> (r: String)
    ensures
        r@ == truncated_right(s@, max_width as nat, 0),
{
    let cs = chars_of(s);
    let mut width: usize = 0;
    let mut result = String::new();
    let mut i: usize = 0;
    assert(cs@.skip(0) =~= cs@);
    while i < cs.len()
        invariant_except_break
            i <= cs.len(),
            width <= max_width,
            result@ + truncated_right(cs@.skip(i as int), max_width as nat, width as nat)
                == truncated_right(cs@, max_width as nat, 0),
        ensures
            result@ == truncated_right(cs@, max_width as nat, 0),
        decreases cs.len() - i,
    {
        let ch = cs[i];
        let w = columns_of(ch);
        let ghost rest = cs@.skip(i as int);
        assert(rest[0] == ch);
        assert(rest.drop_first() =~= cs@.skip(i + 1));
        if w > max_width - width {
            let ghost before = result@;
            push_char(&mut result, '…');
            proof {
                reveal_strlit("…");
                assert(result@ =~= before + "…"@);
            }
            break;
        }
        let ghost before = result@;
        push_char(&mut result, ch);
        assert(before + (seq![ch] + truncated_right(cs@.skip(i + 1), max_width as nat, (width + w) as nat))
            =~= result@ + truncated_right(cs@.skip(i + 1), max_width as nat, (width + w) as nat));
        width = width + w;
        i += 1;
        if i == cs.len() {
            assert(cs@.skip(i as int) =~= Seq::<char>::empty());
            assert(result@ + Seq::<char>::empty() =~= result@);
        }
    }
    result
}

/// A string of `c` repeated `n` times.
pub fn repeat_char(c: char, n: usize) -> (r: String)
    ensures
        r@ == repeat(c, n as nat),
{
    let mut r = String::new();
    let mut i: usize = 0;
    while i < n
        invariant
            i <= n,
            r@ == repeat(c, i as nat),
        decreases n - i,
    {
        push_char(&mut r, c);
        i += 1;
        assert(r@ =~= repeat(c, i as nat));
    }
    r
}

/// The left part of the title line: the brand, the session's title and the
/// model.
pub open spec fn header_left(h: HeaderView) -> Seq<SpanView> {
    seq![
        ("◆ "@, tinted_bold(PRIMARY)),
        ("agent "@, tinted_bold(TEXT)),
        ("│ "@, tinted(BORDER)),
        (truncated_right(h.session_title, 30, 0), tinted(TEXT_MUTED)),
        ("  "@, no_style()),
    ] + if h.model.len() > 0 { seq![(h.model, tinted(SECONDARY))] } else { Seq::empty() }
}

/// The gauge of the context, in the colour of its level, and its label.
pub open spec fn header_bar(h: HeaderView) -> Seq<SpanView> {
    seq![
        (gauge(h.context_pct), tinted(bar_tint(h.context_pct))),
        (" "@ + decimal(h.context_pct) + "%"@, no_style()),
    ]
}

/// The title line `total` columns wide.
pub open spec fn header_line(h: HeaderView, total: nat) -> Seq<SpanView> {
    filled_between(header_left(h), header_bar(h), total)
}

impl Header {
    /// The pieces of the title line for a line `total_width` columns wide.
    pub fn line(&self, total_width: usize) -> (r: Vec<StyledSpan>)
        ensures
            spans_view(r@) == header_line(self@, total_width as nat),
    {
        let mut left: Vec<StyledSpan> = Vec::new();
        push_span(&mut left, span_str("◆ ", fg_bold(PRIMARY)));
        push_span(&mut left, span_str("agent ", fg_bold(TEXT)));
        push_span(&mut left, span_str("│ ", fg(BORDER)));
        push_span(&mut left, span(truncate_str(self.session_title.as_str(), 30), fg(TEXT_MUTED)));
        push_span(&mut left, span_str("  ", plain_style()));
        if !self.model.as_str().is_empty() {
            push_span(&mut left, span_str(self.model.as_str(), fg(SECONDARY)));
        }
        let (bar, label) = self.context_bar();
        let mut right: Vec<StyledSpan> = Vec::new();
        push_span(&mut right, span(bar, fg(context_bar_color(self.context_pct))));
        push_span(&mut right, span(label, plain_style()));
        assert(spans_view(left@) =~= header_left(self@));
        assert(spans_view(right@) =~= header_bar(self@));
        fill_between(left, right, total_width)
    }

    /// A header for a new session, with nothing else set.
    pub fn new() -> (r: Self)
        ensures
            r@ == (HeaderView {
                session_title: "New Session"@,
                model: Seq::empty(),
                context_pct: 0,
                streaming: false,
                spinner_tick: 0,
            }),
    {
        Header {
            session_title: owned("New Session"),
            model: String::new(),
            context_pct: 0,
            streaming: false,
            spinner_tick: 0,
        }
    }

    /// Sets the model shown.
    pub fn set_model(&mut self, model: &str)
        ensures
            final(self)@ == (HeaderView { model: model@, ..old(self)@ }),
    {
        self.model = owned(model);
    }

    /// Sets the title of the session.
    pub fn set_session_title(&mut self, title: &str)
        ensures
            final(self)@ == (HeaderView { session_title: title@, ..old(self)@ }),
    {
        self.session_title = owned(title);
    }

    /// Sets the share of the context in use, at most 100 percent.
    pub fn set_context_pct(&mut self, pct: u8)
        ensures
            final(self)@ == (HeaderView {
                context_pct: if pct <= 100 { pct as nat } else { 100 },
                ..old(self)@
            }),
    {
        self.context_pct = if pct <= 100 { pct } else { 100 };
    }

    /// Sets whether a response is streaming.
    pub fn set_streaming(&mut self, streaming: bool)
        ensures
            final(self)@ == (HeaderView { streaming, ..old(self)@ }),
    {
        self.streaming = streaming;
    }

    /// Advances the spinner by one frame, wrapping around.
    pub fn tick(&mut self)
        ensures
            final(self)@ == (HeaderView {
                spinner_tick: (old(self)@.spinner_tick + 1) % 256,
                ..old(self)@
            }),
    {
        self.spinner_tick = self.spinner_tick.wrapping_add(1);
    }

    /// The gauge of the context and its label ` N%`.
    pub fn context_bar(&self) -> (r: (String, String))
        ensures
            r.0@ == gauge(self@.context_pct),
            r.1@ == " "@ + decimal(self@.context_pct) + "%"@,
    {
        let filled = (self.context_pct as usize * BAR_WIDTH) / 100;
        let empty = if filled <= BAR_WIDTH { BAR_WIDTH - filled } else { 0 };
        let mut bar = repeat_char('▓', filled);
        let rest = repeat_char('░', empty);
        push_str(&mut bar, rest.as_str());
        let mut label = owned(" ");
        let digits = decimal_exec(self.context_pct as u64);
        let mut i: usize = 0;
        while i < digits.len()
            invariant
                i <= digits.len(),
                label@ == " "@ + digits@.take(i as int),
            decreases digits.len() - i,
        {
            push_char(&mut label, digits[i]);
            i += 1;
            assert(label@ =~= " "@ + digits@.take(i as int));
        }
        push_char(&mut label, '%');
        proof {
            reveal_strlit(" ");
            reveal_strlit("%");
            assert(digits@.take(digits.len() as int) =~= digits@);
            assert(label@ =~= " "@ + decimal(self@.context_pct) + "%"@);
        }
        (bar, label)
    }
}

} // verus!
