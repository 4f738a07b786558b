//! The state of the whole interface and how it answers keys, commands and
//! the events of a streamed answer. Drawing and reading the terminal are the
//! application's part.
use vstd::prelude::*;
use crate::file_diff::{file_diff_text, FileDiff};
use crate::stream::StreamEvent;
use crate::text::{chars_of, utf8_len, is_whitespace, is_whitespace_exec, owned, push_str, str_eq, string_of, take_chars, trim_start};
use crate::tui::spinner::braille_frames;
use crate::tui::toast::survivors;
use crate::tui::approval::{toggle_at, ApprovalBar, ApprovalStatus, ApprovalView};
use crate::tui::chat::ChatView;
use crate::tui::footer::{Footer, FooterView};
use crate::tui::header::{Header, HeaderView};
use crate::tui::input::{byte_len, can_edit, edit, edit_safe, edited, on_boundary, Key};
use crate::tui::messages::{appended, scrolled_down, scrolled_up, text_appended, MessagesArea, MessagesView};
use crate::tui::spinner::{Spinner, SpinnerView};
use crate::tui::styled::{fg, push_span, span_str, spans_view, tinted, SpanView, StyledSpan};
use crate::tui::theme::{PRIMARY, TEXT};
use crate::tui::toast::{Toast, ToastManager};
use crate::tui::tool_block::{ToolBlock, ToolBlockView, ToolStateView};

verus! {

/// What a key asks of the application.
#[derive(Debug)]
pub enum KeyOutcome {
    /// Nothing more to do.
    Continue,
    /// Leave the application.
    Quit,
    /// Send this input.
    Submit(String),
}

/// The value of a [`KeyOutcome`].
pub ghost enum OutcomeView {
    Continue,
    Quit,
    Submit(Seq<char>),
}

impl View for KeyOutcome {
    type V = OutcomeView;

    open spec fn view(&self) -> OutcomeView {
        match self {
            KeyOutcome::Continue => OutcomeView::Continue,
            KeyOutcome::Quit => OutcomeView::Quit,
            KeyOutcome::Submit(s) => OutcomeView::Submit(s@),
        }
    }
}

/// The interface: its parts, the input line with its cursor (a byte offset),
/// whether it runs, the model, and the status.
pub struct App {
    pub header: Header,
    pub footer: Footer,
    pub messages: MessagesArea,
    pub approval: ApprovalBar,
    pub spinner: Spinner,
    pub toasts: ToastManager,
    pub input: String,
    pub input_cursor: usize,
    pub running: bool,
    pub model: String,
    pub status: String,
}

/// The value of an [`App`].
pub ghost struct AppView {
    pub header: HeaderView,
    pub footer: FooterView,
    pub messages: MessagesView,
    pub approval: ApprovalView,
    pub spinner: SpinnerView,
    pub toasts: Seq<Toast>,
    pub input: Seq<char>,
    pub input_cursor: nat,
    pub running: bool,
    pub model: Seq<char>,
    pub status: Seq<char>,
}

impl View for App {
    type V = AppView;

    open spec fn view(&self) -> AppView {
        AppView {
            header: self.header@,
            footer: self.footer@,
            messages: self.messages@,
            approval: self.approval@,
            spinner: self.spinner@,
            toasts: self.toasts@,
            input: self.input@,
            input_cursor: self.input_cursor as nat,
            running: self.running,
            model: self.model@,
            status: self.status@,
        }
    }
}

/// The bar after a key while it is shown: the arrows move the selection,
/// space flips the selected decision, Enter confirms and hides it, Esc
/// rejects everything and hides it.
pub open spec fn approval_after(b: ApprovalView, key: Key) -> ApprovalView {
    match key {
        Key::Left => ApprovalView { selected: if b.selected > 0 { (b.selected - 1) as nat } else { 0 }, ..b },
        Key::Right => ApprovalView {
            selected: if b.selected + 1 < b.actions.len() { b.selected + 1 } else { b.selected },
            ..b
        },
        Key::Char(c, _) => if c == ' ' { ApprovalView { actions: toggle_at(b.actions, b.selected as int), ..b } } else { b },
        Key::Enter => ApprovalView { visible: false, ..b },
        Key::Esc => ApprovalView {
            actions: b.actions.map_values(|a: (Seq<char>, ApprovalStatus)| (a.0, ApprovalStatus::Rejected)),
            visible: false,
            ..b
        },
        _ => b,
    }
}

/// Control and `c` together.
pub open spec fn is_quit(key: Key) -> bool {
    key == Key::Char('c', true)
}

/// The keys that edit the input line or move its cursor.
pub open spec fn is_edit(key: Key) -> bool {
    match key {
        Key::Char(_, _) => !is_quit(key),
        Key::Backspace | Key::Delete | Key::Left | Key::Right | Key::Home | Key::End => true,
        _ => false,
    }
}

/// The interface after a key (the notices apart). With the approval bar
/// shown, the key goes to the bar. Otherwise: Esc stops the spinner and
/// shows `Ready`; Enter takes out a non-empty input; the page keys scroll the
/// transcript by ten lines; the editing keys edit the input.
pub open spec fn after_key(a: AppView, key: Key) -> AppView {
    if a.approval.visible {
        AppView { approval: approval_after(a.approval, key), ..a }
    } else if is_quit(key) {
        a
    } else if is_edit(key) {
        let (s, c) = edited(a.input, a.input_cursor, key);
        AppView { input: s, input_cursor: c, ..a }
    } else {
        match key {
            Key::Esc => AppView {
                spinner: SpinnerView { running: false, ..a.spinner },
                status: "Ready"@,
                header: HeaderView { streaming: false, ..a.header },
                ..a
            },
            Key::Enter => if a.input.len() > 0 { AppView { input: Seq::empty(), input_cursor: 0, ..a } } else { a },
            Key::PageUp => AppView { messages: scrolled_up(a.messages, 10), ..a },
            Key::PageDown => AppView { messages: scrolled_down(a.messages, 10), ..a },
            _ => a,
        }
    }
}

/// What a key asks of the application: to leave on Control-C, to send the
/// input on Enter when there is one (the approval bar not being shown).
pub open spec fn key_outcome(a: AppView, key: Key) -> OutcomeView {
    if a.approval.visible {
        OutcomeView::Continue
    } else if is_quit(key) {
        OutcomeView::Quit
    } else if key == Key::Enter && a.input.len() > 0 {
        OutcomeView::Submit(a.input)
    } else {
        OutcomeView::Continue
    }
}

/// The key can be taken: an editing key needs the cursor where it can act.
pub open spec fn key_safe(a: AppView, key: Key) -> bool {
    !a.approval.visible && is_edit(key) ==> edit_safe(a.input, a.input_cursor, key)
}

impl App {
    /// The interface for `model`, in its starting state.
    pub fn new(model: &str, working_dir: &str) -> (r: Self)
        ensures
            r@.header.model == model@,
            r@.header.session_title == "New Session"@,
            r@.footer.status == "Ready"@,
            r@.messages.messages == Seq::<ChatView>::empty(),
            !r@.approval.visible,
            r@.spinner == (SpinnerView { tick: 0, label: "Thinking"@, running: false }),
            r@.toasts == Seq::<Toast>::empty(),
            r@.input == Seq::<char>::empty(),
            r@.input_cursor == 0,
            r@.running,
            r@.model == model@,
            r@.status == "Ready"@,
    {
        let mut header = Header::new();
        header.set_model(model);
        App {
            header,
            footer: Footer::new(),
            messages: MessagesArea::new(),
            approval: ApprovalBar::new(),
            spinner: Spinner::new("Thinking"),
            toasts: ToastManager::new(),
            input: String::new(),
            input_cursor: 0,
            running: true,
            model: owned(model),
            status: owned("Ready"),
        }
    }

    /// Whether the key can be taken without cutting the input inside a
    /// character.
    pub fn accepts_key(&self, key: Key) -> (r: bool)
        ensures
            r == key_safe(self@, key),
    {
        if self.approval.is_visible() {
            return true;
        }
        let quit = match key {
            Key::Char(c, ctrl) => c == 'c' && ctrl,
            _ => false,
        };
        let editing = match key {
            Key::Char(_, _) => !quit,
            Key::Backspace | Key::Delete | Key::Left | Key::Right | Key::Home | Key::End => true,
            _ => false,
        };
        if editing {
            can_edit(&self.input, self.input_cursor, key)
        } else {
            true
        }
    }

    /// Answers a key.
    pub fn handle_key(&mut self, key: Key) -> (r: KeyOutcome)
        requires
            key_safe(old(self)@, key),
        ensures
            final(self)@ == after_key(old(self)@, key),
            r@ == key_outcome(old(self)@, key),
            on_boundary(old(self)@.input, old(self)@.input_cursor) ==> on_boundary(final(self)@.input, final(self)@.input_cursor),
    {
        if self.approval.is_visible() {
            match key {
                Key::Left => self.approval.select_prev(),
                Key::Right => self.approval.select_next(),
                Key::Char(c, _) => {
                    if c == ' ' {
                        self.approval.toggle_selected();
                    }
                },
                Key::Enter => {
                    let _decisions = self.approval.confirm();
                    self.approval.hide_bar();
                },
                Key::Esc => self.approval.reject_all(),
                _ => {},
            }
            return KeyOutcome::Continue;
        }
        let quit = match key {
            Key::Char(c, ctrl) => c == 'c' && ctrl,
            _ => false,
        };
        if quit {
            return KeyOutcome::Quit;
        }
        let editing = match key {
            Key::Char(_, _) => true,
            Key::Backspace | Key::Delete | Key::Left | Key::Right | Key::Home | Key::End => true,
            _ => false,
        };
        if editing {
            let (s, c) = edit(&self.input, self.input_cursor, key);
            self.input = s;
            self.input_cursor = c;
            return KeyOutcome::Continue;
        }
        match key {
            Key::Esc => {
                self.spinner.stop();
                self.status = owned("Ready");
                self.header.set_streaming(false);
                KeyOutcome::Continue
            },
            Key::Enter => {
                if !self.input.as_str().is_empty() {
                    let mut taken = String::new();
                    std::mem::swap(&mut taken, &mut self.input);
                    self.input_cursor = 0;
                    KeyOutcome::Submit(taken)
                } else {
                    KeyOutcome::Continue
                }
            },
            Key::PageUp => {
                self.messages.scroll_up(10);
                KeyOutcome::Continue
            },
            Key::PageDown => {
                self.messages.scroll_down(10);
                KeyOutcome::Continue
            },
            _ => KeyOutcome::Continue,
        }
    }
}


/// The first word of `s`: its characters from the start up to the first
/// white space.
pub open spec fn leading_word(s: Seq<char>) -> Seq<char>
    decreases s.len(),
{
    if s.len() == 0 || is_whitespace(s[0]) {
        Seq::empty()
    } else {
        seq![s[0]] + leading_word(s.drop_first())
    }
}

/// The command of an input (`split_whitespace().next()`): its first word
/// after any leading white space; the whole input when it has no word.
pub open spec fn command_word(s: Seq<char>) -> Seq<char> {
    let w = leading_word(trim_start(s));
    if w.len() == 0 { s } else { w }
}

/// The help the interface gives.
pub open spec fn help_text() -> Seq<char> {
    "Commands: /help /model /skills /clear /quit /sessions /new /mcp"@
}

/// The interface after a command: `/quit`, `/exit` or `/q` stop it; `/help`,
/// `/h` or `/?` show the commands; `/clear` empties the transcript;
/// `/model` shows the model; any other command is reported as not supported.
pub open spec fn after_command(a: AppView, input: Seq<char>) -> AppView {
    let cmd = command_word(input);
    if cmd == "/quit"@ || cmd == "/exit"@ || cmd == "/q"@ {
        AppView { running: false, ..a }
    } else if cmd == "/help"@ || cmd == "/h"@ || cmd == "/?"@ {
        AppView { messages: appended(a.messages, ChatView::System(help_text())), ..a }
    } else if cmd == "/clear"@ {
        AppView { messages: MessagesView { messages: Seq::empty(), scroll_offset: 0, auto_scroll: true }, ..a }
    } else if cmd == "/model"@ {
        AppView { messages: appended(a.messages, ChatView::System("Model: "@ + a.model)), ..a }
    } else {
        AppView {
            messages: appended(a.messages, ChatView::System("Command '"@ + cmd + "' not yet supported in TUI mode"@)),
            ..a
        }
    }
}

/// The interface once a message is sent: the message in the transcript,
/// `Thinking...` as the status, the spinner started and the header streaming.
pub open spec fn after_begin(a: AppView, input: Seq<char>) -> AppView {
    AppView {
        messages: appended(a.messages, ChatView::User(input)),
        status: "Thinking..."@,
        spinner: SpinnerView { tick: 0, label: a.spinner.label, running: true },
        header: HeaderView { streaming: true, ..a.header },
        ..a
    }
}

/// The interface once the answer has ended: the spinner stopped, `Ready` as
/// the status, the header no longer streaming.
pub open spec fn after_end(a: AppView) -> AppView {
    AppView {
        spinner: SpinnerView { running: false, ..a.spinner },
        status: "Ready"@,
        header: HeaderView { streaming: false, ..a.header },
        ..a
    }
}

/// The transcript after a streamed event: text goes to the assistant's
/// message, a starting tool call gets a block, an error is shown.
pub open spec fn after_event(m: MessagesView, ev: crate::stream::EventView) -> MessagesView {
    match ev {
        crate::stream::EventView::Token(t) => MessagesView {
            messages: text_appended(m.messages, t),
            scroll_offset: if m.auto_scroll { 0 } else { m.scroll_offset },
            ..m
        },
        crate::stream::EventView::Start(_, name) => appended(m, ChatView::ToolCall(ToolBlockView {
            name,
            arguments: Seq::empty(),
            output: Seq::empty(),
            state: ToolStateView::Running,
            collapsed: false,
        })),
        crate::stream::EventView::Error(e) => appended(m, ChatView::Error(e)),
        _ => m,
    }
}

/// The input line: a prompt, the characters before the cursor, the cursor,
/// and the characters after it, one piece each. The cursor, a byte offset,
/// is counted here as a number of characters.
pub open spec fn input_spans(s: Seq<char>, cursor: nat) -> Seq<SpanView> {
    let before = take_chars(s, cursor as int);
    let after = if cursor >= s.len() { Seq::<char>::empty() } else { s.skip(cursor as int) };
    seq![("> "@, tinted(TEXT))]
        + before.map_values(|c: char| (seq![c], tinted(TEXT)))
        + seq![("▏"@, tinted(PRIMARY))]
        + after.map_values(|c: char| (seq![c], tinted(TEXT)))
}

/// Adds each character as a piece of its own.
fn push_chars(line: &mut Vec<StyledSpan>, cs: &[char], from: usize, to: usize)
    requires
        from <= to <= cs.len(),
    ensures
        spans_view(final(line)@) == spans_view(old(line)@) + cs@.subrange(from as int, to as int).map_values(|c: char| (seq![c], tinted(TEXT))),
{
    let ghost base = spans_view(line@);
    let mut i: usize = from;
    while i < to
        invariant
            from <= i <= to <= cs.len(),
            spans_view(line@) == base + cs@.subrange(from as int, i as int).map_values(|c: char| (seq![c], tinted(TEXT))),
        decreases to - i,
    {
        let mut t = String::new();
        crate::text::push_char(&mut t, cs[i]);
        assert(t@ =~= seq![cs[i as int]]);
        push_span(line, crate::tui::styled::span(t, fg(TEXT)));
        assert(cs@.subrange(from as int, i + 1).map_values(|c: char| (seq![c], tinted(TEXT)))
            =~= cs@.subrange(from as int, i as int).map_values(|c: char| (seq![c], tinted(TEXT))).push((seq![cs[i as int]], tinted(TEXT))));
        i += 1;
    }
}

impl App {
    /// Runs a command typed in the input (one starting with `/`).
    pub fn handle_command(&mut self, input: &str)
        ensures
            final(self)@ == after_command(old(self)@, input@),
    {
        let cs = chars_of(input);
        let mut i: usize = 0;
        assert(cs@.skip(0) =~= cs@);
        while i < cs.len() && is_whitespace_exec(cs[i])
            invariant
                i <= cs.len(),
                trim_start(cs@) == trim_start(cs@.skip(i as int)),
            decreases cs.len() - i,
        {
            assert(cs@.skip(i as int).drop_first() =~= cs@.skip(i + 1));
            i += 1;
        }
        let start = i;
        let ghost t = cs@.skip(start as int);
        proof {
            if start < cs.len() {
                assert(t[0] == cs@[start as int]);
            } else {
                assert(t =~= Seq::<char>::empty());
            }
        }
        assert(trim_start(cs@) == t);
        while i < cs.len() && !is_whitespace_exec(cs[i])
            invariant
                start <= i <= cs.len(),
                t == cs@.skip(start as int),
                leading_word(t) == cs@.subrange(start as int, i as int) + leading_word(cs@.skip(i as int)),
            decreases cs.len() - i,
        {
            assert(cs@.skip(i as int).drop_first() =~= cs@.skip(i + 1));
            assert(cs@.subrange(start as int, i + 1) =~= cs@.subrange(start as int, i as int) + seq![cs@[i as int]]);
            i += 1;
        }
        proof {
            if i < cs.len() {
                assert(cs@.skip(i as int)[0] == cs@[i as int]);
            } else {
                assert(cs@.skip(i as int) =~= Seq::<char>::empty());
            }
            assert(leading_word(t) =~= cs@.subrange(start as int, i as int));
        }
        let cmd = if i > start {
            string_of(crate::text::slice_vec(cs.as_slice(), start, i).as_slice())
        } else {
            owned(input)
        };
        assert(cmd@ == command_word(input@));
        let c = cmd.as_str();
        if str_eq(c, "/quit") || str_eq(c, "/exit") || str_eq(c, "/q") {
            self.running = false;
        } else if str_eq(c, "/help") || str_eq(c, "/h") || str_eq(c, "/?") {
            self.messages.push_system("Commands: /help /model /skills /clear /quit /sessions /new /mcp");
        } else if str_eq(c, "/clear") {
            self.messages.clear();
        } else if str_eq(c, "/model") {
            let mut text = owned("Model: ");
            push_str(&mut text, self.model.as_str());
            self.messages.push_system(text.as_str());
        } else {
            let mut text = owned("Command '");
            push_str(&mut text, c);
            push_str(&mut text, "' not yet supported in TUI mode");
            self.messages.push_system(text.as_str());
        }
    }

    /// Adds pasted text at the end of the input and puts the cursor after it.
    pub fn paste(&mut self, text: &str)
        ensures
            final(self)@ == (AppView {
                input: old(self)@.input + text@,
                input_cursor: utf8_len(old(self)@.input + text@),
                ..old(self)@
            }),
    {
        push_str(&mut self.input, text);
        let cs = chars_of(self.input.as_str());
        self.input_cursor = byte_len(&cs);
    }

    /// Shows a message being sent and starts waiting for the answer.
    pub fn begin_turn(&mut self, input: &str)
        ensures
            final(self)@ == after_begin(old(self)@, input@),
    {
        self.messages.push_user(input);
        self.status = owned("Thinking...");
        self.spinner.start();
        self.header.set_streaming(true);
    }

    /// Takes in one event of the streamed answer; `true` when the answer has
    /// ended (done, or an error). The answer's text gathers in `response`,
    /// and the contents of files before the tools change them in `snapshots`.
    pub fn on_stream_event(&mut self, ev: &StreamEvent, response: &mut String, snapshots: &mut Vec<(String, String)>) -> (stop: bool)
        ensures
            final(self)@ == (AppView { messages: after_event(old(self)@.messages, ev@), ..old(self)@ }),
            final(response)@ == match ev@ {
                crate::stream::EventView::Token(t) => old(response)@ + t,
                _ => old(response)@,
            },
            final(snapshots)@.len() == old(snapshots)@.len() + if ev@ is Snapshot { 1int } else { 0 },
            forall|k: int| 0 <= k < old(snapshots)@.len() ==> #[trigger] final(snapshots)@[k] == old(snapshots)@[k],
            ev@ matches crate::stream::EventView::Snapshot(p, c) ==> (final(snapshots)@.last().0@ == p && final(snapshots)@.last().1@ == c),
            stop == (ev@ is Done || ev@ is Error),
    {
        match ev {
            StreamEvent::Token(t) => {
                self.add_text(t.as_str());
                push_str(response, t.as_str());
                false
            },
            StreamEvent::ToolCallStart { name, .. } => {
                proof {
                    reveal_strlit("");
                }
                let b = ToolBlock::new(name.as_str(), "");
                assert(b.arguments@ =~= Seq::<char>::empty());
                assert(b@ == (ToolBlockView {
                    name: name@,
                    arguments: Seq::empty(),
                    output: Seq::empty(),
                    state: ToolStateView::Running,
                    collapsed: false,
                }));
                self.messages.push_tool(b);
                false
            },
            StreamEvent::ToolSnapshot { path, content } => {
                snapshots.push((owned(path.as_str()), owned(content.as_str())));
                false
            },
            StreamEvent::Done => true,
            StreamEvent::Error(e) => {
                self.messages.push_error(e.as_str());
                true
            },
            _ => false,
        }
    }

    /// Adds streamed text to the transcript.
    fn add_text(&mut self, t: &str)
        ensures
            final(self)@ == (AppView {
                messages: after_event(old(self)@.messages, crate::stream::EventView::Token(t@)),
                ..old(self)@
            }),
    {
        let ghost m0 = self@.messages;
        if self.messages.last_is_assistant() {
            self.messages.append_to_last(t);
        } else {
            self.messages.push_assistant(t);
            assert(text_appended(m0.messages, t@) == m0.messages.push(ChatView::Assistant(t@)));
        }
    }

    /// Stops waiting once the answer has ended.
    pub fn end_turn(&mut self)
        ensures
            final(self)@ == after_end(old(self)@),
    {
        self.spinner.stop();
        self.status = owned("Ready");
        self.header.set_streaming(false);
    }

    /// Shows how a tool changed the file at `path`, when it did.
    pub fn note_changes(&mut self, path: &str, old_content: &str, new_content: &str)
        ensures
            old_content@ == new_content@ ==> final(self)@ == old(self)@,
            old_content@ != new_content@ ==> final(self)@ == (AppView {
                messages: appended(
                    old(self)@.messages,
                    ChatView::System("Changes in "@ + path@ + ":\n"@ + file_diff_text(old_content@, new_content@, path@)),
                ),
                ..old(self)@
            }),
    {
        if !str_eq(old_content, new_content) {
            let diff = FileDiff::diff(old_content, new_content, path);
            let mut text = owned("Changes in ");
            push_str(&mut text, path);
            push_str(&mut text, ":\n");
            push_str(&mut text, diff.as_str());
            self.messages.push_system(text.as_str());
        }
    }

    /// The height of the approval bar: four lines while it is shown.
    pub fn approval_height(&self) -> (r: u16)
        ensures
            r == (if self@.approval.visible { 4u16 } else { 0u16 }),
    {
        if self.approval.is_visible() { 4 } else { 0 }
    }

    /// The pieces of the input line.
    pub fn input_line(&self) -> (r: Vec<StyledSpan>)
        ensures
            spans_view(r@) == input_spans(self@.input, self@.input_cursor),
    {
        let cs = chars_of(self.input.as_str());
        let n = cs.len();
        let cut = if self.input_cursor < n { self.input_cursor } else { n };
        let mut line: Vec<StyledSpan> = Vec::new();
        push_span(&mut line, span_str("> ", fg(TEXT)));
        push_chars(&mut line, cs.as_slice(), 0, cut);
        push_span(&mut line, span_str("▏", fg(PRIMARY)));
        push_chars(&mut line, cs.as_slice(), cut, n);
        proof {
            let s = self@.input;
            assert(cs@.subrange(0, cut as int) =~= take_chars(s, self.input_cursor as int));
            let after = if self.input_cursor >= s.len() { Seq::<char>::empty() } else { s.skip(self.input_cursor as int) };
            assert(cs@.subrange(cut as int, n as int) =~= after);
            assert(spans_view(line@) =~= input_spans(s, self@.input_cursor));
        }
        line
    }
}


/// Every frame of the spinner shows something.
proof fn lemma_frames_shown()
    ensures
        forall|i: int| 0 <= i < 10 ==> #[trigger] braille_frames()[i].len() > 0,
{
    reveal_strlit("⠋");
    reveal_strlit("⠙");
    reveal_strlit("⠹");
    reveal_strlit("⠸");
    reveal_strlit("⠼");
    reveal_strlit("⠴");
    reveal_strlit("⠦");
    reveal_strlit("⠧");
    reveal_strlit("⠇");
    reveal_strlit("⠏");
}

impl App {
    /// Advances the interface by one tick: the header's spinner, the notices
    /// (the expired ones go), the spinner, and the status line, which shows
    /// the spinner's frame before the status while it runs.
    pub fn tick(&mut self)
        ensures
            final(self)@.header == (HeaderView {
                spinner_tick: (old(self)@.header.spinner_tick + 1) % 256,
                ..old(self)@.header
            }),
            !old(self)@.spinner.running ==> final(self)@.spinner == old(self)@.spinner
                && final(self)@.footer == (FooterView { streaming: false, status: old(self)@.status, ..old(self)@.footer }),
            old(self)@.spinner.running ==> {
                &&& final(self)@.spinner.running
                &&& final(self)@.spinner.label == old(self)@.spinner.label
                &&& (final(self)@.spinner.tick == old(self)@.spinner.tick
                    || final(self)@.spinner.tick == (old(self)@.spinner.tick + 1) % 10)
                &&& final(self)@.footer == (FooterView {
                    streaming: true,
                    status: braille_frames()[final(self)@.spinner.tick as int] + " "@ + old(self)@.status,
                    ..old(self)@.footer
                })
            },
            final(self)@.messages == old(self)@.messages,
            final(self)@.approval == old(self)@.approval,
            final(self)@.input == old(self)@.input,
            final(self)@.input_cursor == old(self)@.input_cursor,
            final(self)@.running == old(self)@.running,
            final(self)@.model == old(self)@.model,
            final(self)@.status == old(self)@.status,
            exists|expired: Seq<bool>| final(self).toasts@ == survivors(old(self).toasts@, expired, 0),
    {
        self.header.tick();
        self.toasts.tick();
        let running = self.spinner.is_running();
        self.footer.set_streaming(running);
        if running {
            let frame = self.spinner.tick();
            proof {
                lemma_frames_shown();
            }
            if !frame.is_empty() {
                let mut text = owned(frame);
                push_str(&mut text, " ");
                push_str(&mut text, self.status.as_str());
                self.footer.set_status(text.as_str());
            }
        } else {
            self.footer.set_status(self.status.as_str());
        }
    }
}

} // verus!
