//! The status line at the bottom of the interface.
use vstd::prelude::*;
use crate::text::{chars_of, contains, decimal, decimal_exec, owned, push_char, push_str, slice_vec, str_contains, string_of};
use crate::tui::styled::{
    fg, fg_bold, fill_between, filled_between, no_style, plain_style, push_span, span, span_str, spans_view,
    tinted, tinted_bold, SpanView, StyledSpan,
};
use crate::tui::theme::{ERROR, SECONDARY, SPINNER, TEXT_DIM, TEXT_MUTED, WARNING};
use crate::tui::spinner::{braille_frame, braille_frames};
use crate::width::{columns_of, columns_or_zero, str_columns, str_width};

verus! {

/// The state of the status line.
pub struct Footer {
    pub directory: String,
    pub status: String,
    pub model: String,
    pub token_pct: u8,
    pub streaming: bool,
    /// The frame of the spinner shown while streaming.
    pub spinner_tick: u8,
}

/// The value of a [`Footer`].
pub ghost struct FooterView {
    pub directory: Seq<char>,
    pub status: Seq<char>,
    pub model: Seq<char>,
    pub token_pct: nat,
    pub streaming: bool,
    pub spinner_tick: nat,
}

impl View for Footer {
    type V = FooterView;

    open spec fn view(&self) -> FooterView {
        FooterView {
            directory: self.directory@,
            status: self.status@,
            model: self.model@,
            token_pct: self.token_pct as nat,
            streaming: self.streaming,
            spinner_tick: self.spinner_tick as nat,
        }
    }
}

/// Where the kept suffix of `cs` starts when it is cut from the left to at
/// most `limit` columns: the characters before index `k` are examined from the
/// last one down, `width` columns having been kept already.
pub open spec fn keep_from(cs: Seq<char>, limit: nat, k: int, width: nat) -> int
    decreases k,
{
    if k <= 0 {
        0
    } else {
        let w = columns_or_zero(cs[k - 1]);
        if width + w > limit {
            k
        } else {
            keep_from(cs, limit, k - 1, width + w)
        }
    }
}

/// `s` as the status line shows it in `max_width` columns: whole when it
/// fits, else an ellipsis and the longest suffix that fits in one column less.
pub open spec fn truncated_left(s: Seq<char>, max_width: nat) -> Seq<char> {
    if str_columns(s) <= max_width {
        s
    } else {
        "…"@ + s.skip(keep_from(s, (max_width - 1) as nat, s.len() as int, 0))
    }
}

/// `keep_from` stays within the examined range.
proof fn lemma_keep_from_range(cs: Seq<char>, limit: nat, k: int, width: nat)
    requires
        0 <= k <= cs.len(),
    ensures
        0 <= keep_from(cs, limit, k, width) <= k,
    decreases k,
{
    if k > 0 {
        let w = columns_or_zero(cs[k - 1]);
        if width + w <= limit {
            lemma_keep_from_range(cs, limit, k - 1, width + w);
        }
    }
}

/// Columns left for the fill between the two halves of a status line.
pub open spec fn fill_columns(left: nat, right: nat, total: nat) -> nat {
    if left + right < total {
        (total - left - right) as nat
    } else {
        0
    }
}

/// The blank columns between the left part (`left` columns) and the right
/// part (`right` columns) of a line `total` columns wide.
pub fn fill_width(left: usize, right: usize, total: usize) -> (r: usize)
    ensures
        r == fill_columns(left as nat, right as nat, total as nat),
{
    if left < total && right < total - left {
        total - left - right
    } else {
        0
    }
}

/// The colour of the status: an error, a response streaming, or at rest.
pub open spec fn status_tint(f: FooterView) -> crate::tui::styled::Tint {
    if contains(f.status, "Error"@) {
        ERROR
    } else if f.streaming {
        WARNING
    } else {
        TEXT_MUTED
    }
}

/// The left part of the status line: the directory, the spinner while a
/// response streams, and the status.
pub open spec fn footer_left(f: FooterView) -> Seq<SpanView> {
    let dir = truncated_left(f.directory, 25);
    let a = if dir.len() > 0 {
        seq![(dir, tinted(TEXT_DIM)), ("  "@, no_style())]
    } else {
        Seq::empty()
    };
    let b = if f.streaming {
        seq![(braille_frames()[(f.spinner_tick % 10) as int], tinted(SPINNER)), (" "@, no_style())]
    } else {
        Seq::empty()
    };
    a + b + seq![(f.status, tinted(status_tint(f)))]
}

/// The right part of the status line: the model, the share of the context in
/// use, and the keys to quit and to get help.
pub open spec fn footer_right(f: FooterView) -> Seq<SpanView> {
    let m = if f.model.len() > 0 {
        seq![(f.model, tinted(SECONDARY)), ("  "@, no_style())]
    } else {
        Seq::empty()
    };
    m + seq![
        (decimal(f.token_pct) + "%"@, tinted(TEXT_DIM)),
        ("  "@, no_style()),
        ("^C"@, tinted_bold(TEXT_DIM)),
        (" quit "@, tinted(TEXT_DIM)),
        ("^H"@, tinted_bold(TEXT_DIM)),
        (" help"@, tinted(TEXT_DIM)),
    ]
}

/// The status line `total` columns wide.
pub open spec fn footer_line(f: FooterView, total: nat) -> Seq<SpanView> {
    filled_between(footer_left(f), footer_right(f), total)
}

impl Footer {
    /// The pieces of the status line for a line `total_width` columns wide.
    pub fn line(&self, total_width: usize) -> (r: Vec<StyledSpan>)
        ensures
            spans_view(r@) == footer_line(self@, total_width as nat),
    {
        let mut left: Vec<StyledSpan> = Vec::new();
        let dir = self.truncate_left(self.directory.as_str(), 25);
        if !dir.as_str().is_empty() {
            push_span(&mut left, span(dir, fg(TEXT_DIM)));
            push_span(&mut left, span_str("  ", plain_style()));
        }
        if self.streaming {
            push_span(&mut left, span_str(self.spinner_frame(), fg(SPINNER)));
            push_span(&mut left, span_str(" ", plain_style()));
        }
        let status_color = if self.status_is_error() {
            ERROR
        } else if self.streaming {
            WARNING
        } else {
            TEXT_MUTED
        };
        push_span(&mut left, span_str(self.status.as_str(), fg(status_color)));
        let mut right: Vec<StyledSpan> = Vec::new();
        if !self.model.as_str().is_empty() {
            push_span(&mut right, span_str(self.model.as_str(), fg(SECONDARY)));
            push_span(&mut right, span_str("  ", plain_style()));
        }
        let mut pct = string_of(decimal_exec(self.token_pct as u64).as_slice());
        push_char(&mut pct, '%');
        push_span(&mut right, span(pct, fg(TEXT_DIM)));
        push_span(&mut right, span_str("  ", plain_style()));
        push_span(&mut right, span_str("^C", fg_bold(TEXT_DIM)));
        push_span(&mut right, span_str(" quit ", fg(TEXT_DIM)));
        push_span(&mut right, span_str("^H", fg_bold(TEXT_DIM)));
        push_span(&mut right, span_str(" help", fg(TEXT_DIM)));
        proof {
            reveal_strlit("%");
            assert(pct@ =~= decimal(self@.token_pct) + "%"@);
            assert(spans_view(left@) =~= footer_left(self@));
            assert(spans_view(right@) =~= footer_right(self@));
        }
        fill_between(left, right, total_width)
    }

    /// A footer that reads `Ready`, with nothing else set.
    pub fn new() -> (r: Self)
        ensures
            r@ == (FooterView {
                directory: Seq::empty(),
                status: "Ready"@,
                model: Seq::empty(),
                token_pct: 0,
                streaming: false,
                spinner_tick: 0,
            }),
    {
        Footer {
            directory: String::new(),
            status: owned("Ready"),
            model: String::new(),
            token_pct: 0,
            streaming: false,
            spinner_tick: 0,
        }
    }

    /// Sets the directory shown.
    pub fn set_directory(&mut self, dir: &str)
        ensures
            final(self)@ == (FooterView { directory: dir@, ..old(self)@ }),
    {
        self.directory = owned(dir);
    }

    /// Sets the status shown.
    pub fn set_status(&mut self, status: &str)
        ensures
            final(self)@ == (FooterView { status: status@, ..old(self)@ }),
    {
        self.status = owned(status);
    }

    /// Sets the model shown.
    pub fn set_model(&mut self, model: &str)
        ensures
            final(self)@ == (FooterView { model: model@, ..old(self)@ }),
    {
        self.model = owned(model);
    }

    /// Sets the share of the context in use, at most 100 percent.
    pub fn set_token_pct(&mut self, pct: u8)
        ensures
            final(self)@ == (FooterView {
                token_pct: if pct <= 100 { pct as nat } else { 100 },
                ..old(self)@
            }),
    {
        self.token_pct = if pct <= 100 { pct } else { 100 };
    }

    /// Sets whether a response is streaming.
    pub fn set_streaming(&mut self, streaming: bool)
        ensures
            final(self)@ == (FooterView { streaming, ..old(self)@ }),
    {
        self.streaming = streaming;
    }

    /// Advances the spinner by one frame, wrapping around.
    pub fn tick(&mut self)
        ensures
            final(self)@ == (FooterView {
                spinner_tick: (old(self)@.spinner_tick + 1) % 256,
                ..old(self)@
            }),
    {
        self.spinner_tick = self.spinner_tick.wrapping_add(1);
    }

    /// The spinner frame to show while streaming.
    pub fn spinner_frame(&self) -> (r: &'static str)
        ensures
            r@ == braille_frames()[(self@.spinner_tick % 10) as int],
    {
        braille_frame(self.spinner_tick as usize)
    }

    /// Whether the status reports an error.
    pub fn status_is_error(&self) -> (r: bool)
        ensures
            r == contains(self@.status, "Error"@),
    {
        str_contains(self.status.as_str(), "Error")
    }

    /// Cuts `s` from the left to at most `max_width` columns, marking the cut
    /// with an ellipsis. A width of zero holds only text of no columns.
    pub fn truncate_left(&self, s: &str, max_width: usize) -> (r: String)
        requires
            max_width >= 1 || str_columns(s@) == 0,
        ensures
            r@ == truncated_left(s@, max_width as nat),
    {
        if str_width(s) <= max_width {
            return owned(s);
        }
        let chars = chars_of(s);
        let limit = max_width - 1;
        let mut width: usize = 0;
        let mut k: usize = chars.len();
        while k > 0
            invariant_except_break
                k <= chars.len(),
                width <= limit,
                keep_from(chars@, limit as nat, chars.len() as int, 0) == keep_from(
                    chars@,
                    limit as nat,
                    k as int,
                    width as nat,
                ),
            ensures
                k <= chars.len(),
                keep_from(chars@, limit as nat, chars.len() as int, 0) == k,
            decreases k,
        {
            let w = columns_of(chars[k - 1]);
            if w > limit - width {
                break;
            }
            width = width + w;
            k = k - 1;
        }
        let suffix = slice_vec(chars.as_slice(), k, chars.len());
        let mut r = owned("…");
        let tail = string_of(suffix.as_slice());
        push_str(&mut r, tail.as_str());
        proof {
            assert(chars@.subrange(k as int, chars@.len() as int) =~= chars@.skip(k as int));
        }
        r
    }
}

} // verus!
