//! Short notices shown over the interface, which expire after a few seconds.
use vstd::prelude::*;
use std::time::Instant;
use crate::clock::{as_millis, elapsed, now};
use crate::text::{owned, push_str};
use crate::tui::styled::{fg, span_str, tinted, SpanView, StyledSpan, Tint};
use crate::tui::theme::{ERROR, PRIMARY, SUCCESS, TEXT, WARNING};

verus! {

/// How long a notice stays, in seconds, unless it reports an error.
pub const DEFAULT_LIFETIME_SECS: u64 = 4;

/// How long a notice of an error stays, in seconds.
pub const ERROR_LIFETIME_SECS: u64 = 6;

/// At most this many notices are kept; a new one pushes out the oldest.
pub const MAX_TOASTS: usize = 5;

/// The kind of a notice, which sets its colour.
#[derive(Debug, Clone, Copy, PartialEq, Eq, Structural)]
pub enum ToastKind {
    Info,
    Success,
    Warning,
    Error,
}

/// A notice and when it was created.
pub struct Toast {
    pub message: String,
    pub kind: ToastKind,
    created_at: Instant,
    lifetime_secs: u64,
}

/// A notice with a lifetime of `lifetime` seconds has expired after
/// `elapsed_ms` milliseconds.
pub open spec fn expired_after(lifetime: nat, elapsed_ms: int) -> bool {
    elapsed_ms >= lifetime * 1000
}

/// The value of a [`Toast`], apart from its creation time.
pub ghost struct ToastView {
    pub message: Seq<char>,
    pub kind: ToastKind,
    /// How long the notice stays, in seconds.
    pub lifetime: nat,
}

impl View for Toast {
    type V = ToastView;

    closed spec fn view(&self) -> ToastView {
        ToastView { message: self.message@, kind: self.kind, lifetime: self.lifetime_secs as nat }
    }
}

impl Toast {
    fn make(msg: &str, kind: ToastKind, lifetime_secs: u64) -> (r: Self)
        ensures
            r@.message == msg@,
            r@.kind == kind,
            r@.lifetime == lifetime_secs,
    {
        Toast { message: owned(msg), kind, created_at: now(), lifetime_secs }
    }

    /// An informative notice.
    pub fn info(msg: &str) -> (r: Self)
        ensures
            r@.message == msg@,
            r@.kind == ToastKind::Info,
            r@.lifetime == DEFAULT_LIFETIME_SECS,
    {
        Self::make(msg, ToastKind::Info, DEFAULT_LIFETIME_SECS)
    }

    /// A notice of success.
    pub fn success(msg: &str) -> (r: Self)
        ensures
            r@.message == msg@,
            r@.kind == ToastKind::Success,
            r@.lifetime == DEFAULT_LIFETIME_SECS,
    {
        Self::make(msg, ToastKind::Success, DEFAULT_LIFETIME_SECS)
    }

    /// A warning.
    pub fn warning(msg: &str) -> (r: Self)
        ensures
            r@.message == msg@,
            r@.kind == ToastKind::Warning,
            r@.lifetime == DEFAULT_LIFETIME_SECS,
    {
        Self::make(msg, ToastKind::Warning, DEFAULT_LIFETIME_SECS)
    }

    /// A notice of an error; it stays longer.
    pub fn error(msg: &str) -> (r: Self)
        ensures
            r@.message == msg@,
            r@.kind == ToastKind::Error,
            r@.lifetime == ERROR_LIFETIME_SECS,
    {
        Self::make(msg, ToastKind::Error, ERROR_LIFETIME_SECS)
    }

    /// Whether a notice that has been shown for `elapsed_ms` milliseconds has
    /// expired: its lifetime has passed.
    pub fn is_expired_at(&self, elapsed_ms: u128) -> (r: bool)
        ensures
            r == expired_after(self@.lifetime, elapsed_ms as int),
    {
        elapsed_ms >= (self.lifetime_secs as u128) * 1000
    }

    /// Whether the notice has expired by the clock. Its lifetime is whole
    /// seconds, so comparing whole milliseconds decides as the durations would.
    pub fn is_expired(&self) -> (r: bool)
        ensures
            exists|ms: u128| r == #[trigger] expired_after(self@.lifetime, ms as int),
    {
        let ms = as_millis(&elapsed(&self.created_at));
        self.is_expired_at(ms)
    }
}

/// The notices shown, oldest first.
pub struct ToastManager {
    toasts: Vec<Toast>,
}

/// The notices of `ts` from index `from` on whose entry in `expired` is not
/// `true`, in order.
pub open spec fn survivors(ts: Seq<Toast>, expired: Seq<bool>, from: int) -> Seq<Toast>
    decreases ts.len() - from,
{
    if from < 0 || from >= ts.len() {
        Seq::empty()
    } else if from < expired.len() && expired[from] {
        survivors(ts, expired, from + 1)
    } else {
        seq![ts[from]] + survivors(ts, expired, from + 1)
    }
}

/// The notices after `t` is pushed onto `ts`, the oldest dropped when there
/// are too many.
pub open spec fn pushed(ts: Seq<Toast>, t: Toast) -> Seq<Toast> {
    if ts.len() + 1 > MAX_TOASTS {
        ts.push(t).drop_first()
    } else {
        ts.push(t)
    }
}

/// The colour of the frame of a notice of kind `k`.
pub open spec fn kind_tint(k: ToastKind) -> Tint {
    match k {
        ToastKind::Info => PRIMARY,
        ToastKind::Success => SUCCESS,
        ToastKind::Warning => WARNING,
        ToastKind::Error => ERROR,
    }
}

/// The name of a kind of notice, as its frame shows it.
pub open spec fn kind_name(k: ToastKind) -> Seq<char> {
    match k {
        ToastKind::Info => "Info"@,
        ToastKind::Success => "Success"@,
        ToastKind::Warning => "Warning"@,
        ToastKind::Error => "Error"@,
    }
}

impl Toast {
    /// The colour of the notice's frame.
    pub fn border_color(&self) -> (r: Tint)
        ensures
            r == kind_tint(self@.kind),
    {
        match self.kind {
            ToastKind::Info => PRIMARY,
            ToastKind::Success => SUCCESS,
            ToastKind::Warning => WARNING,
            ToastKind::Error => ERROR,
        }
    }
}

/// The widest a notice is drawn.
pub const MAX_TOAST_WIDTH: u16 = 60;

/// Where and how one notice is drawn: its frame's place and size, its title
/// and colour, and its text.
pub struct ToastBox {
    pub x: u32,
    pub y: u32,
    pub width: u16,
    pub height: u16,
    pub title: String,
    pub border: Tint,
    pub message: StyledSpan,
}

/// The value of a [`ToastBox`].
pub ghost struct ToastBoxView {
    pub x: nat,
    pub y: nat,
    pub width: nat,
    pub height: nat,
    pub title: Seq<char>,
    pub border: Tint,
    pub message: SpanView,
}

impl View for ToastBox {
    type V = ToastBoxView;

    open spec fn view(&self) -> ToastBoxView {
        ToastBoxView {
            x: self.x as nat,
            y: self.y as nat,
            width: self.width as nat,
            height: self.height as nat,
            title: self.title@,
            border: self.border,
            message: self.message@,
        }
    }
}

/// The width of the notices in an area `area_w` columns wide.
pub open spec fn toast_width(area_w: nat) -> nat {
    let room: nat = if area_w >= 2 { (area_w - 2) as nat } else { 0 };
    if room < 60 { room } else { 60 }
}

/// How many of `len` notices, three lines each, stacked from the second line
/// down, fit in an area `area_h` lines tall.
pub open spec fn shown_toasts(len: nat, area_h: nat) -> nat
    decreases len,
{
    if len == 0 {
        0
    } else if 3 * (len - 1) + 4 <= area_h {
        len
    } else {
        shown_toasts((len - 1) as nat, area_h)
    }
}

/// How the notice `t`, the `i`-th from the top, is drawn in the area at
/// (`ax`, `ay`), `aw` columns wide: at the right edge, one column in.
pub open spec fn toast_box(t: ToastView, i: int, ax: nat, ay: nat, aw: nat) -> ToastBoxView {
    let w = toast_width(aw);
    ToastBoxView {
        x: ax + if aw >= w + 1 { (aw - w - 1) as nat } else { 0 },
        y: (ay + 1 + 3 * i) as nat,
        width: w,
        height: 3,
        title: "─ "@ + kind_name(t.kind) + " "@,
        border: kind_tint(t.kind),
        message: (t.message, tinted(TEXT)),
    }
}

/// The notices drawn in the area at (`ax`, `ay`), `aw` by `ah`: from the top,
/// as many as fit.
pub open spec fn toast_boxes(ts: Seq<ToastView>, ax: nat, ay: nat, aw: nat, ah: nat) -> Seq<ToastBoxView> {
    Seq::new(shown_toasts(ts.len(), ah), |i: int| toast_box(ts[i], i, ax, ay, aw))
}

/// The views of notices.
pub open spec fn toasts_view(ts: Seq<Toast>) -> Seq<ToastView> {
    ts.map_values(|t: Toast| t@)
}

/// The values of drawn notices.
pub open spec fn boxes_view(bs: Seq<ToastBox>) -> Seq<ToastBoxView> {
    bs.map_values(|b: ToastBox| b@)
}

/// When the first `k` notices fit and the next one does not (or there is no
/// next one), `k` of them are shown.
proof fn lemma_shown(len: nat, ah: nat, k: nat)
    requires
        k <= len,
        k == 0 || 3 * (k - 1) + 4 <= ah,
        k == len || 3 * k + 4 > ah,
    ensures
        shown_toasts(len, ah) == k,
    decreases len,
{
    if len > k {
        assert(3 * (len - 1) + 4 > ah);
        lemma_shown((len - 1) as nat, ah, k);
    } else if len > 0 {
        assert(3 * ((len - 1) as nat) + 4 <= ah);
    }
}

impl View for ToastManager {
    type V = Seq<Toast>;

    closed spec fn view(&self) -> Seq<Toast> {
        self.toasts@
    }
}

impl ToastManager {
    #[verifier::type_invariant]
    spec fn bounded(&self) -> bool {
        self.toasts.len() <= MAX_TOASTS
    }

    /// No notices.
    pub fn new() -> (r: Self)
        ensures
            r@ == Seq::<Toast>::empty(),
    {
        ToastManager { toasts: Vec::new() }
    }

    /// Shows a new notice; when there are then too many, the oldest goes.
    pub fn push(&mut self, toast: Toast)
        ensures
            final(self)@ == pushed(old(self)@, toast),
            final(self)@.len() <= MAX_TOASTS,
    {
        proof {
            use_type_invariant(&*self);
        }
        let mut v: Vec<Toast> = Vec::new();
        std::mem::swap(&mut v, &mut self.toasts);
        v.push(toast);
        if v.len() > MAX_TOASTS {
            let ghost full = v@;
            let _oldest = v.remove(0);
            assert(v@ =~= full.drop_first());
        }
        self.toasts = v;
    }

    /// Removes the notices whose entry in `expired` is `true`; the others stay
    /// in order.
    pub fn remove_expired(&mut self, expired: &Vec<bool>)
        ensures
            final(self)@ == survivors(old(self)@, expired@, 0),
    {
        proof {
            use_type_invariant(&*self);
        }
        let mut rest: Vec<Toast> = Vec::new();
        std::mem::swap(&mut rest, &mut self.toasts);
        let ghost orig = rest@;
        let mut kept: Vec<Toast> = Vec::new();
        let mut i: usize = 0;
        assert(orig.skip(0) =~= orig);
        while rest.len() > 0
            invariant
                i + rest.len() == orig.len(),
                rest@ == orig.skip(i as int),
                kept.len() <= i,
                orig.len() <= MAX_TOASTS,
                kept@ + survivors(orig, expired@, i as int) == survivors(orig, expired@, 0),
            decreases rest.len(),
        {
            let t = rest.remove(0);
            assert(t == orig[i as int]);
            let gone = i < expired.len() && expired[i];
            if !gone {
                let ghost before = kept@;
                kept.push(t);
                assert(before + survivors(orig, expired@, i as int) =~= kept@ + survivors(
                    orig,
                    expired@,
                    i + 1,
                ));
            }
            assert(rest@ =~= orig.skip(i + 1));
            i += 1;
        }
        assert(survivors(orig, expired@, i as int) == Seq::<Toast>::empty());
        assert(kept@ + Seq::<Toast>::empty() =~= kept@);
        self.toasts = kept;
    }

    /// Removes the notices that have expired by the clock; the others stay in
    /// order.
    pub fn tick(&mut self)
        ensures
            exists|expired: Seq<bool>| final(self)@ == survivors(old(self)@, expired, 0),
    {
        let mut expired: Vec<bool> = Vec::new();
        let mut i: usize = 0;
        while i < self.toasts.len()
            invariant
                i <= self.toasts.len(),
            decreases self.toasts.len() - i,
        {
            expired.push(self.toasts[i].is_expired());
            i += 1;
        }
        self.remove_expired(&expired);
    }

    /// How the notices are drawn in the area at (`area_x`, `area_y`),
    /// `area_w` columns by `area_h` lines: from the top, as many as fit.
    pub fn boxes(&self, area_x: u16, area_y: u16, area_w: u16, area_h: u16) -> (r: Vec<ToastBox>)
        ensures
            boxes_view(r@) == toast_boxes(toasts_view(self@), area_x as nat, area_y as nat, area_w as nat, area_h as nat),
    {
        proof {
            use_type_invariant(self);
        }
        let ghost tv = toasts_view(self@);
        let room = if area_w >= 2 { area_w - 2 } else { 0 };
        let width = if room < MAX_TOAST_WIDTH { room } else { MAX_TOAST_WIDTH };
        let x = area_x as u32 + if area_w >= width + 1 { (area_w - width - 1) as u32 } else { 0 };
        let mut out: Vec<ToastBox> = Vec::new();
        let mut i: usize = 0;
        while i < self.toasts.len()
            invariant_except_break
                i <= self.toasts.len(),
                self.toasts.len() <= MAX_TOASTS,
                tv == toasts_view(self@),
                self@ == self.toasts@,
                width as nat == toast_width(area_w as nat),
                i == 0 || 3 * (i - 1) + 4 <= area_h,
                boxes_view(out@) =~= Seq::new(i as nat, |k: int| toast_box(tv[k], k, area_x as nat, area_y as nat, area_w as nat)),
                x as nat == toast_box(tv[0], 0, area_x as nat, area_y as nat, area_w as nat).x,
            ensures
                i <= self.toasts.len(),
                i == 0 || 3 * (i - 1) + 4 <= area_h,
                i == self.toasts.len() || 3 * i + 4 > area_h,
                boxes_view(out@) =~= Seq::new(i as nat, |k: int| toast_box(tv[k], k, area_x as nat, area_y as nat, area_w as nat)),
            decreases self.toasts.len() - i,
        {
            let y = area_y as u32 + 1 + 3 * (i as u32);
            if y + 3 > area_y as u32 + area_h as u32 {
                break;
            }
            let t = &self.toasts[i];
            let mut title = owned("─ ");
            let label = match t.kind {
                ToastKind::Info => "Info",
                ToastKind::Success => "Success",
                ToastKind::Warning => "Warning",
                ToastKind::Error => "Error",
            };
            push_str(&mut title, label);
            push_str(&mut title, " ");
            let b = ToastBox {
                x,
                y,
                width,
                height: 3,
                title,
                border: t.border_color(),
                message: span_str(t.message.as_str(), fg(TEXT)),
            };
            let ghost before = out@;
            out.push(b);
            proof {
                assert(tv[i as int] == t@);
                assert(boxes_view(out@) =~= boxes_view(before).push(b@));
                assert(b@ == toast_box(tv[i as int], i as int, area_x as nat, area_y as nat, area_w as nat));
            }
            i += 1;
        }
        proof {
            lemma_shown(tv.len(), area_h as nat, i as nat);
        }
        out
    }

    /// The notices, oldest first, for drawing them.
    pub fn toasts(&self) -> (r: &[Toast])
        ensures
            r@ == self@,
            r@.len() <= MAX_TOASTS,
    {
        proof {
            use_type_invariant(self);
        }
        self.toasts.as_slice()
    }
}

} // verus!
