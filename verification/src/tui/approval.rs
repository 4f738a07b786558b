//! The bar in which the user approves or rejects the tool calls of a turn.
use vstd::prelude::*;
use crate::text::{owned, push_str, string_views};
use crate::tui::styled::{
    fg, no_style, plain_style, push_line, push_span, span, span_str, spans_view, lines_view, tinted, tinted_bold,
    SpanStyle, SpanView, StyledSpan,
};
use crate::tui::theme::{ERROR, SUCCESS, TEXT_DIM, TEXT_MUTED};

verus! {

/// The user's decision on one call.
#[derive(Debug, Clone, Copy, PartialEq, Eq, Structural)]
pub enum ApprovalStatus {
    Approved,
    Rejected,
}

/// A tool call waiting for the user's decision.
#[derive(Debug, Clone)]
pub struct ApprovalAction {
    pub name: String,
    pub status: ApprovalStatus,
}

/// The calls shown in the bar, which one is selected, and whether it is shown.
pub struct ApprovalBar {
    actions: Vec<ApprovalAction>,
    selected: usize,
    visible: bool,
}

/// The value of an [`ApprovalBar`].
pub ghost struct ApprovalView {
    /// Name and status of each call, in order.
    pub actions: Seq<(Seq<char>, ApprovalStatus)>,
    pub selected: nat,
    pub visible: bool,
}

/// Name and status of each action.
pub open spec fn actions_view(v: Seq<ApprovalAction>) -> Seq<(Seq<char>, ApprovalStatus)> {
    v.map_values(|a: ApprovalAction| (a.name@, a.status))
}

/// The other decision.
pub open spec fn flipped(s: ApprovalStatus) -> ApprovalStatus {
    match s {
        ApprovalStatus::Approved => ApprovalStatus::Rejected,
        ApprovalStatus::Rejected => ApprovalStatus::Approved,
    }
}

/// The actions with the decision at `i` flipped (unchanged when `i` is out of range).
pub open spec fn toggle_at(a: Seq<(Seq<char>, ApprovalStatus)>, i: int) -> Seq<(Seq<char>, ApprovalStatus)> {
    if 0 <= i < a.len() {
        a.update(i, (a[i].0, flipped(a[i].1)))
    } else {
        a
    }
}

impl View for ApprovalBar {
    type V = ApprovalView;

    closed spec fn view(&self) -> ApprovalView {
        ApprovalView {
            actions: actions_view(self.actions@),
            selected: self.selected as nat,
            visible: self.visible,
        }
    }
}

/// The piece that shows one call: its mark and name in the colour of its
/// decision, underlined and bold when it is selected.
pub open spec fn action_span(a: (Seq<char>, ApprovalStatus), selected: bool) -> SpanView {
    let (icon, color) = match a.1 {
        ApprovalStatus::Approved => ("✓"@, SUCCESS),
        ApprovalStatus::Rejected => ("✗"@, ERROR),
    };
    (icon + " "@ + a.0, SpanStyle { underlined: selected, bold: selected, ..tinted(color) })
}

/// The pieces of the first `n` calls, three spaces apart.
pub open spec fn action_spans(actions: Seq<(Seq<char>, ApprovalStatus)>, selected: nat, n: int) -> Seq<SpanView>
    decreases n,
{
    if n <= 0 {
        Seq::empty()
    } else {
        let prev = action_spans(actions, selected, n - 1);
        let sep = if n - 1 > 0 { seq![("   "@, no_style())] } else { Seq::empty() };
        prev + sep + seq![action_span(actions[n - 1], n - 1 == selected)]
    }
}

/// The keys the bar answers to.
pub open spec fn approval_help() -> Seq<SpanView> {
    seq![
        ("space"@, tinted_bold(TEXT_MUTED)),
        (" · "@, tinted(TEXT_DIM)),
        ("← →"@, tinted_bold(TEXT_MUTED)),
        (" · "@, tinted(TEXT_DIM)),
        ("enter"@, tinted_bold(TEXT_MUTED)),
        (" confirm  "@, tinted(TEXT_DIM)),
        ("esc"@, tinted_bold(TEXT_MUTED)),
        (" reject all"@, tinted(TEXT_DIM)),
    ]
}

/// The lines inside the bar's frame, `height` lines tall: the calls and the
/// keys; nothing when fewer than two lines fit or there is no call.
pub open spec fn approval_lines(b: ApprovalView, height: nat) -> Seq<Seq<SpanView>> {
    if height < 2 || b.actions.len() == 0 {
        Seq::empty()
    } else {
        seq![action_spans(b.actions, b.selected, b.actions.len() as int), approval_help()]
    }
}

impl ApprovalBar {
    /// The lines to draw inside the bar's frame, which is `height` lines tall.
    pub fn lines(&self, height: usize) -> (r: Vec<Vec<StyledSpan>>)
        ensures
            lines_view(r@) == approval_lines(self@, height as nat),
    {
        let mut out: Vec<Vec<StyledSpan>> = Vec::new();
        if height < 2 || self.actions.len() == 0 {
            assert(lines_view(out@) =~= Seq::<Seq<SpanView>>::empty());
            return out;
        }
        let ghost av = actions_view(self.actions@);
        let mut status: Vec<StyledSpan> = Vec::new();
        let mut i: usize = 0;
        while i < self.actions.len()
            invariant
                i <= self.actions.len(),
                av == actions_view(self.actions@),
                spans_view(status@) == action_spans(av, self.selected as nat, i as int),
            decreases self.actions.len() - i,
        {
            if i > 0 {
                push_span(&mut status, span_str("   ", plain_style()));
            }
            let a = &self.actions[i];
            let is_selected = i == self.selected;
            let (icon, color) = match a.status {
                ApprovalStatus::Approved => ("✓", SUCCESS),
                ApprovalStatus::Rejected => ("✗", ERROR),
            };
            let mut text = owned(icon);
            push_str(&mut text, " ");
            push_str(&mut text, a.name.as_str());
            let base = fg(color);
            let style = SpanStyle { underlined: is_selected, bold: is_selected, ..base };
            push_span(&mut status, span(text, style));
            proof {
                assert(av[i as int] == (a.name@, a.status));
                assert(spans_view(status@) =~= action_spans(av, self.selected as nat, i + 1));
            }
            i += 1;
        }
        let mut help: Vec<StyledSpan> = Vec::new();
        push_span(&mut help, span_str("space", crate::tui::styled::fg_bold(TEXT_MUTED)));
        push_span(&mut help, span_str(" · ", fg(TEXT_DIM)));
        push_span(&mut help, span_str("← →", crate::tui::styled::fg_bold(TEXT_MUTED)));
        push_span(&mut help, span_str(" · ", fg(TEXT_DIM)));
        push_span(&mut help, span_str("enter", crate::tui::styled::fg_bold(TEXT_MUTED)));
        push_span(&mut help, span_str(" confirm  ", fg(TEXT_DIM)));
        push_span(&mut help, span_str("esc", crate::tui::styled::fg_bold(TEXT_MUTED)));
        push_span(&mut help, span_str(" reject all", fg(TEXT_DIM)));
        assert(spans_view(help@) =~= approval_help());
        push_line(&mut out, status);
        push_line(&mut out, help);
        assert(lines_view(out@) =~= approval_lines(self@, height as nat));
        out
    }

    #[verifier::type_invariant]
    spec fn selection_in_range(&self) -> bool {
        self.selected == 0 || self.selected < self.actions.len()
    }

    /// A hidden bar without calls.
    pub fn new() -> (r: Self)
        ensures
            r@.actions == Seq::<(Seq<char>, ApprovalStatus)>::empty(),
            r@.selected == 0,
            !r@.visible,
    {
        ApprovalBar { actions: Vec::new(), selected: 0, visible: false }
    }

    /// Shows the bar with the given calls, all approved, the first selected.
    pub fn show(&mut self, tool_names: Vec<String>)
        ensures
            final(self)@.actions == string_views(tool_names@).map_values(
                |n: Seq<char>| (n, ApprovalStatus::Approved),
            ),
            final(self)@.selected == 0,
            final(self)@.visible,
    {
        let mut actions: Vec<ApprovalAction> = Vec::new();
        let mut i: usize = 0;
        while i < tool_names.len()
            invariant
                i <= tool_names.len(),
                actions_view(actions@) == string_views(tool_names@.take(i as int)).map_values(
                    |n: Seq<char>| (n, ApprovalStatus::Approved),
                ),
            decreases tool_names.len() - i,
        {
            let a = ApprovalAction {
                name: owned(tool_names[i].as_str()),
                status: ApprovalStatus::Approved,
            };
            let ghost before = actions@;
            actions.push(a);
            assert(actions_view(actions@) =~= actions_view(before).push((a.name@, a.status)));
            assert(tool_names@.take(i + 1) =~= tool_names@.take(i as int).push(tool_names@[i as int]));
            assert(string_views(tool_names@.take(i + 1)).map_values(
                |n: Seq<char>| (n, ApprovalStatus::Approved),
            ) =~= string_views(tool_names@.take(i as int)).map_values(
                |n: Seq<char>| (n, ApprovalStatus::Approved),
            ).push((tool_names@[i as int]@, ApprovalStatus::Approved)));
            i += 1;
        }
        assert(tool_names@.take(tool_names.len() as int) =~= tool_names@);
        self.selected = 0;
        self.actions = actions;
        self.visible = true;
    }

    /// Hides the bar; the calls and their decisions stay.
    pub fn hide_bar(&mut self)
        ensures
            final(self)@ == (ApprovalView { visible: false, ..old(self)@ }),
    {
        proof {
            use_type_invariant(&*self);
        }
        self.visible = false;
    }

    /// Whether the bar is shown.
    pub fn is_visible(&self) -> (r: bool)
        ensures
            r == self@.visible,
    {
        self.visible
    }

    /// Flips the decision on the selected call.
    pub fn toggle_selected(&mut self)
        ensures
            final(self)@ == (ApprovalView {
                actions: toggle_at(old(self)@.actions, old(self)@.selected as int),
                ..old(self)@
            }),
    {
        proof {
            use_type_invariant(&*self);
        }
        let i = self.selected;
        if i < self.actions.len() {
            let status = match self.actions[i].status {
                ApprovalStatus::Approved => ApprovalStatus::Rejected,
                ApprovalStatus::Rejected => ApprovalStatus::Approved,
            };
            let ghost before = actions_view(self.actions@);
            let updated = with_status(&self.actions, Some(i), status);
            assert(actions_view(updated@) =~= toggle_at(before, i as int));
            self.actions = updated;
        }
    }

    /// Selects the previous call, if there is one.
    pub fn select_prev(&mut self)
        ensures
            final(self)@ == (ApprovalView {
                selected: if old(self)@.selected > 0 { (old(self)@.selected - 1) as nat } else { 0 },
                ..old(self)@
            }),
    {
        proof {
            use_type_invariant(&*self);
        }
        if self.selected > 0 {
            self.selected = self.selected - 1;
        }
    }

    /// Selects the next call, if there is one.
    pub fn select_next(&mut self)
        ensures
            final(self)@ == (ApprovalView {
                selected: if old(self)@.selected + 1 < old(self)@.actions.len() {
                    old(self)@.selected + 1
                } else {
                    old(self)@.selected
                },
                ..old(self)@
            }),
    {
        proof {
            use_type_invariant(&*self);
        }
        if self.selected + 1 < self.actions.len() {
            self.selected = self.selected + 1;
        }
    }

    /// For each call, in order, whether it is approved.
    pub fn confirm(&self) -> (r: Vec<bool>)
        ensures
            r@ == self@.actions.map_values(|a: (Seq<char>, ApprovalStatus)| a.1 == ApprovalStatus::Approved),
    {
        let mut r: Vec<bool> = Vec::new();
        let mut i: usize = 0;
        while i < self.actions.len()
            invariant
                i <= self.actions.len(),
                r@ == self@.actions.take(i as int).map_values(
                    |a: (Seq<char>, ApprovalStatus)| a.1 == ApprovalStatus::Approved,
                ),
            decreases self.actions.len() - i,
        {
            r.push(self.actions[i].status == ApprovalStatus::Approved);
            assert(self@.actions.take(i + 1) =~= self@.actions.take(i as int).push(self@.actions[i as int]));
            i += 1;
        }
        assert(self@.actions.take(self.actions.len() as int) =~= self@.actions);
        r
    }

    /// Rejects every call and hides the bar.
    pub fn reject_all(&mut self)
        ensures
            final(self)@.actions == old(self)@.actions.map_values(
                |a: (Seq<char>, ApprovalStatus)| (a.0, ApprovalStatus::Rejected),
            ),
            final(self)@.selected == old(self)@.selected,
            !final(self)@.visible,
    {
        proof {
            use_type_invariant(&*self);
        }
        let ghost orig = self@.actions;
        let updated = with_status(&self.actions, None, ApprovalStatus::Rejected);
        assert(actions_view(updated@) =~= orig.map_values(
            |a: (Seq<char>, ApprovalStatus)| (a.0, ApprovalStatus::Rejected),
        ));
        self.actions = updated;
        self.visible = false;
    }

    /// The calls, in order, for drawing the bar.
    pub fn actions(&self) -> (r: &[ApprovalAction])
        ensures
            actions_view(r@) == self@.actions,
    {
        self.actions.as_slice()
    }

    /// The index of the selected call.
    pub fn selected(&self) -> (r: usize)
        ensures
            r == self@.selected,
            r == 0 || r < self@.actions.len(),
    {
        proof {
            use_type_invariant(self);
        }
        self.selected
    }
}

/// Whether the call at `j` is the one picked: `only`, or every call when `only` is `None`.
pub open spec fn picked(only: Option<usize>, j: int) -> bool {
    match only {
        Some(i) => j == i,
        None => true,
    }
}

/// A copy of `actions` in which the picked calls get `status`.
fn with_status(actions: &Vec<ApprovalAction>, only: Option<usize>, status: ApprovalStatus) -> (r: Vec<ApprovalAction>)
    ensures
        actions_view(r@) == actions_view(actions@).map(
            |j: int, a: (Seq<char>, ApprovalStatus)| if picked(only, j) { (a.0, status) } else { a },
        ),
{
    let ghost target = actions_view(actions@).map(
        |j: int, a: (Seq<char>, ApprovalStatus)| if picked(only, j) { (a.0, status) } else { a },
    );
    let mut r: Vec<ApprovalAction> = Vec::new();
    let mut i: usize = 0;
    while i < actions.len()
        invariant
            i <= actions.len(),
            target == actions_view(actions@).map(
                |j: int, a: (Seq<char>, ApprovalStatus)| if picked(only, j) { (a.0, status) } else { a },
            ),
            actions_view(r@) == target.take(i as int),
        decreases actions.len() - i,
    {
        let pick = match only {
            Some(k) => k == i,
            None => true,
        };
        let st = if pick { status } else { actions[i].status };
        let ghost before = r@;
        let a = ApprovalAction { name: owned(actions[i].name.as_str()), status: st };
        r.push(a);
        assert(pick == picked(only, i as int));
        assert(target[i as int] == (a.name@, a.status));
        assert(actions_view(r@) =~= actions_view(before).push((a.name@, a.status)));
        assert(actions_view(r@) =~= target.take(i + 1));
        i += 1;
    }
    assert(target.take(actions.len() as int) =~= target);
    r
}

/// Flipping the decision on a call twice gives back the decisions before.
pub proof fn law_toggle_twice(a: Seq<(Seq<char>, ApprovalStatus)>, i: int)
    ensures
        toggle_at(toggle_at(a, i), i) == a,
{
    if 0 <= i < a.len() {
        assert(toggle_at(toggle_at(a, i), i) =~= a);
    }
}

} // verus!
