//! The model's context window: token estimates, overflow levels, compaction,
//! and the clean-up that keeps tool calls and tool results paired.
use vstd::prelude::*;
use crate::message::{
    calls_view, copy_calls, msgs_view, plain, Message, MessageView, Role, ToolCall, ToolCallView,
};
use crate::text::{
    append_chars, append_str, chars_eq, chars_of, concat, decimal, decimal_exec, join, join_exec, lines,
    lines_exec, string_of, take_chars, take_chars_exec, views,
};

verus! {

/// Default size of the context window, in tokens.
pub const DEFAULT_MAX_TOKENS: usize = 180_000;

/// Percentage of the window at which the context is reported as a warning.
pub const WARNING_THRESHOLD: u64 = 90;

/// Room kept free for new messages when compacting, in tokens.
pub const COMPACTION_BUFFER: usize = 20_000;

/// Smallest number of tokens that compaction keeps.
pub const PRUNE_MINIMUM: usize = 20_000;

/// Tokens of recent conversation that the enhanced compaction always keeps.
pub const PRUNE_PROTECT: usize = 40_000;

// ───────────────────────────── token estimates ─────────────────────────────

/// CJK ideographs, radicals, symbols and full-width forms.
pub open spec fn is_cjk(c: char) -> bool {
    let u = c as u32;
    (0x4E00 <= u && u <= 0x9FFF) || (0x3400 <= u && u <= 0x4DBF) || (0xF900 <= u && u <= 0xFAFF)
        || (0x2E80 <= u && u <= 0x2EFF) || (0x3000 <= u && u <= 0x303F) || (0xFF00 <= u && u
        <= 0xFFEF) || (0xFE30 <= u && u <= 0xFE4F)
}

/// Number of CJK characters in `s`.
pub open spec fn cjk_count(s: Seq<char>) -> nat
    decreases s.len(),
{
    if s.len() == 0 {
        0
    } else {
        cjk_count(s.drop_last()) + if is_cjk(s.last()) {
            1nat
        } else {
            0nat
        }
    }
}

/// Estimated tokens of a text: 1.5 per CJK character and 0.25 per other
/// character, rounded down.
pub open spec fn text_tokens(s: Seq<char>) -> nat {
    ((6 * cjk_count(s) + (s.len() - cjk_count(s))) / 4) as nat
}

/// The estimate used inside a message: at least one token per text.
pub open spec fn text_tokens_min1(s: Seq<char>) -> nat {
    if text_tokens(s) < 1 {
        1
    } else {
        text_tokens(s)
    }
}

/// Estimated tokens of the tool calls `cs` (name and JSON arguments of each).
pub open spec fn calls_tokens(cs: Seq<ToolCallView>) -> nat
    decreases cs.len(),
{
    if cs.len() == 0 {
        0
    } else {
        calls_tokens(cs.drop_last()) + text_tokens_min1(cs.last().name) + text_tokens_min1(
            cs.last().arguments,
        )
    }
}

/// Estimated tokens of one message: its text, its tool calls and four tokens of framing.
pub open spec fn message_tokens(m: MessageView) -> nat {
    text_tokens_min1(m.content) + match m.tool_calls {
        Some(cs) => calls_tokens(cs),
        None => 0,
    } + 4
}

/// Estimated tokens of a conversation.
pub open spec fn total_tokens(ms: Seq<MessageView>) -> nat
    decreases ms.len(),
{
    if ms.len() == 0 {
        0
    } else {
        total_tokens(ms.drop_last()) + message_tokens(ms.last())
    }
}

// ───────────────────────────── overflow levels ─────────────────────────────

/// How full the context window is.
#[derive(Debug, Clone, Copy, PartialEq, Eq, Structural)]
pub enum OverflowLevel {
    /// Below the warning threshold.
    Normal,
    /// At or above 90 % of the window.
    Warning,
    /// At or above the whole window.
    Critical,
}

/// The same three states, as the status line reports them.
#[derive(Debug, Clone, Copy, PartialEq, Eq, Structural)]
pub enum ContextStatus {
    Normal,
    Warning,
    Critical,
}

/// The overflow level of `tokens` in a window of `max` tokens: the ratio
/// `tokens / max` compared with 1 and with 0.9 (an empty window with no
/// tokens is not overflowing; with tokens it is critical).
pub open spec fn overflow_level(tokens: nat, max: nat) -> OverflowLevel {
    if max == 0 {
        if tokens == 0 {
            OverflowLevel::Normal
        } else {
            OverflowLevel::Critical
        }
    } else if tokens >= max {
        OverflowLevel::Critical
    } else if 100 * tokens >= WARNING_THRESHOLD * max {
        OverflowLevel::Warning
    } else {
        OverflowLevel::Normal
    }
}

/// The status that corresponds to an overflow level.
pub open spec fn status_of(l: OverflowLevel) -> ContextStatus {
    match l {
        OverflowLevel::Normal => ContextStatus::Normal,
        OverflowLevel::Warning => ContextStatus::Warning,
        OverflowLevel::Critical => ContextStatus::Critical,
    }
}

/// A rank that orders the overflow levels.
pub open spec fn level_rank(l: OverflowLevel) -> int {
    match l {
        OverflowLevel::Normal => 0,
        OverflowLevel::Warning => 1,
        OverflowLevel::Critical => 2,
    }
}

// ───────────────────────────── sanitising ─────────────────────────────

/// `m` is an assistant message that declares the tool call `id`.
pub open spec fn declares(m: MessageView, id: Seq<char>) -> bool {
    m.role == Role::Assistant && match m.tool_calls {
        Some(cs) => exists|j: int| 0 <= j < cs.len() && cs[j].id == id,
        None => false,
    }
}

/// Some message of `ms` declares the tool call `id`.
pub open spec fn declared(ms: Seq<MessageView>, id: Seq<char>) -> bool {
    exists|i: int| 0 <= i < ms.len() && declares(ms[i], id)
}

/// `m` is the result of the tool call `id`.
pub open spec fn answers(m: MessageView, id: Seq<char>) -> bool {
    m.role == Role::Tool && m.tool_call_id == Some(id)
}

/// Some message of `ms` is the result of the tool call `id`.
pub open spec fn answered(ms: Seq<MessageView>, id: Seq<char>) -> bool {
    exists|i: int| 0 <= i < ms.len() && answers(ms[i], id)
}

/// At least one of the calls `cs` has a result in `ms`.
pub open spec fn some_call_answered(ms: Seq<MessageView>, cs: Seq<ToolCallView>) -> bool {
    exists|j: int| 0 <= j < cs.len() && answered(ms, cs[j].id)
}

/// What sanitising makes of the message `m` of the conversation `ms`:
/// a tool result whose call nobody declared is dropped, and an assistant
/// message none of whose calls has a result keeps its text but loses its calls.
pub open spec fn sanitize_one(ms: Seq<MessageView>, m: MessageView) -> Option<MessageView> {
    match m.role {
        Role::Tool => match m.tool_call_id {
            Some(id) => if declared(ms, id) {
                Some(m)
            } else {
                None
            },
            None => Some(m),
        },
        Role::Assistant => match m.tool_calls {
            Some(cs) => if cs.len() > 0 && !some_call_answered(ms, cs) {
                Some(MessageView { tool_calls: None, ..m })
            } else {
                Some(m)
            },
            None => Some(m),
        },
        _ => Some(m),
    }
}

/// Sanitising of the first `k` messages of `ms`, judged against all of `ms`.
pub open spec fn sanitize_upto(ms: Seq<MessageView>, k: int) -> Seq<MessageView>
    decreases k,
{
    if k <= 0 {
        Seq::empty()
    } else {
        sanitize_upto(ms, k - 1) + match sanitize_one(ms, ms[k - 1]) {
            Some(m) => seq![m],
            None => Seq::empty(),
        }
    }
}

/// The conversation `ms` with orphaned tool results removed and unanswered
/// tool calls cleared.
pub open spec fn sanitize(ms: Seq<MessageView>) -> Seq<MessageView> {
    sanitize_upto(ms, ms.len() as int)
}

// ───────────────────────────── compaction ─────────────────────────────

/// The system messages of `ms`, in order.
pub open spec fn system_msgs(ms: Seq<MessageView>) -> Seq<MessageView>
    decreases ms.len(),
{
    if ms.len() == 0 {
        Seq::empty()
    } else if ms.last().role == Role::System {
        system_msgs(ms.drop_last()).push(ms.last())
    } else {
        system_msgs(ms.drop_last())
    }
}

/// The messages of `ms` that are not system messages, in order.
pub open spec fn non_system_msgs(ms: Seq<MessageView>) -> Seq<MessageView>
    decreases ms.len(),
{
    if ms.len() == 0 {
        Seq::empty()
    } else if ms.last().role != Role::System {
        non_system_msgs(ms.drop_last()).push(ms.last())
    } else {
        non_system_msgs(ms.drop_last())
    }
}

/// The prefix of a conversation summary message.
pub open spec fn summary_prefix() -> Seq<char> {
    "[Previous conversation summary]\n"@
}

/// The summary message for `summary`, or nothing when it is empty.
pub open spec fn summary_block(summary: Seq<char>) -> Seq<MessageView> {
    if summary.len() == 0 {
        Seq::empty()
    } else {
        seq![plain(Role::System, summary_prefix() + summary)]
    }
}

/// How many of `n` non-system messages are kept when `keep` recent ones are wanted.
pub open spec fn kept_count(keep: nat, n: nat) -> nat {
    if keep < n {
        keep
    } else {
        n
    }
}

/// The last `kept_count(keep, ns.len())` messages of `ns`.
pub open spec fn recent(ns: Seq<MessageView>, keep: nat) -> Seq<MessageView> {
    ns.skip(ns.len() - kept_count(keep, ns.len()))
}

/// The messages of `ns` older than the recent ones.
pub open spec fn older(ns: Seq<MessageView>, keep: nat) -> Seq<MessageView> {
    ns.take(ns.len() - kept_count(keep, ns.len()))
}

/// Simple compaction: all system messages, the summary, the `keep` most recent
/// other messages, sanitised.
pub open spec fn compact_spec(ms: Seq<MessageView>, keep: nat, summary: Seq<char>) -> Seq<
    MessageView,
> {
    sanitize(
        system_msgs(ms) + summary_block(summary) + recent(non_system_msgs(ms), keep),
    )
}

/// The names of the calls `cs`.
pub open spec fn call_names(cs: Seq<ToolCallView>) -> Seq<Seq<char>> {
    Seq::new(cs.len(), |j: int| cs[j].name)
}

/// The line that summarises one old message, if any.
pub open spec fn summary_part(m: MessageView) -> Option<Seq<char>> {
    match m.role {
        Role::User => {
            let p = take_chars(m.content, 100);
            if p.len() > 0 {
                Some("User asked: "@ + p)
            } else {
                None
            }
        },
        Role::Assistant => match m.tool_calls {
            Some(cs) => Some("Assistant used tools: "@ + join(call_names(cs), ", "@)),
            None => {
                let p = take_chars(m.content, 100);
                if p.len() > 0 {
                    Some("Assistant said: "@ + p)
                } else {
                    None
                }
            },
        },
        Role::Tool => Some("Tool result: "@ + take_chars(m.content, 50) + "..."@),
        Role::System => None,
    }
}

/// The summary lines of `ms`, in order.
pub open spec fn summary_parts(ms: Seq<MessageView>) -> Seq<Seq<char>>
    decreases ms.len(),
{
    if ms.len() == 0 {
        Seq::empty()
    } else {
        summary_parts(ms.drop_last()) + match summary_part(ms.last()) {
            Some(p) => seq![p],
            None => Seq::empty(),
        }
    }
}

/// A textual summary of old messages, one line per summarised message.
pub open spec fn summarize(ms: Seq<MessageView>) -> Seq<char> {
    join(summary_parts(ms), "\n"@)
}

/// The summary that smart compaction uses: the given one, or one made from
/// the messages it drops.
pub open spec fn chosen_summary(llm_summary: Seq<char>, dropped: Seq<MessageView>) -> Seq<char> {
    if llm_summary.len() == 0 {
        summarize(dropped)
    } else {
        llm_summary
    }
}

/// Smart compaction: as simple compaction, but when no summary is given one is
/// made from the dropped messages.
pub open spec fn smart_compact_spec(ms: Seq<MessageView>, keep: nat, llm_summary: Seq<char>) -> Seq<
    MessageView,
> {
    let ns = non_system_msgs(ms);
    sanitize(
        system_msgs(ms) + summary_block(chosen_summary(llm_summary, older(ns, keep))) + recent(
            ns,
            keep,
        ),
    )
}

/// The `j`-th call of the `i`-th message of `ns`, if there is one.
pub open spec fn call_at(ns: Seq<MessageView>, i: int, j: int) -> Option<ToolCallView> {
    if 0 <= i < ns.len() {
        match ns[i].tool_calls {
            Some(cs) => if 0 <= j < cs.len() {
                Some(cs[j])
            } else {
                None
            },
            None => None,
        }
    } else {
        None
    }
}

/// The `j`-th call of the `i`-th message of `ns` has the id `id` and a tool
/// name among `names`.
pub open spec fn protected_call(
    ns: Seq<MessageView>,
    names: Seq<Seq<char>>,
    i: int,
    j: int,
    id: Seq<char>,
) -> bool {
    match call_at(ns, i, j) {
        Some(c) => c.id == id && names.contains(c.name),
        None => false,
    }
}

/// Some call in `ns` with the id `id` is to a tool named in `names`.
pub open spec fn protected_id(ns: Seq<MessageView>, names: Seq<Seq<char>>, id: Seq<char>) -> bool {
    exists|i: int, j: int| #[trigger] protected_call(ns, names, i, j, id)
}

/// `m` is the result of a call to a protected tool, one of whose calls in `ns`
/// has its name in `names`.
pub open spec fn is_protected(ns: Seq<MessageView>, names: Seq<Seq<char>>, m: MessageView) -> bool {
    m.role == Role::Tool && match m.tool_call_id {
        Some(id) => protected_id(ns, names, id),
        None => false,
    }
}

/// The split that the enhanced compaction makes of the first `k` messages of
/// `ns`, walking from the newest one down with `budget` tokens already kept:
/// `(dropped, kept)`. A message is kept while fewer than `PRUNE_PROTECT` tokens
/// are kept, or when it is a protected tool result.
pub open spec fn protect_split(
    ns: Seq<MessageView>,
    names: Seq<Seq<char>>,
    k: int,
    budget: nat,
) -> (Seq<MessageView>, Seq<MessageView>)
    decreases k,
{
    if k <= 0 {
        (Seq::empty(), Seq::empty())
    } else {
        let m = ns[k - 1];
        if budget < PRUNE_PROTECT || is_protected(ns, names, m) {
            let (d, kept) = protect_split(ns, names, k - 1, budget + message_tokens(m));
            (d, kept.push(m))
        } else {
            let (d, kept) = protect_split(ns, names, k - 1, budget);
            (d.push(m), kept)
        }
    }
}

/// Enhanced compaction: keep the recent messages that fit in `PRUNE_PROTECT`
/// tokens (and protected tool results), summarise the rest.
pub open spec fn enhanced_compact_spec(
    ms: Seq<MessageView>,
    names: Seq<Seq<char>>,
    llm_summary: Seq<char>,
) -> Seq<MessageView> {
    let ns = non_system_msgs(ms);
    let (dropped, kept) = protect_split(ns, names, ns.len() as int, 0);
    sanitize(system_msgs(ms) + summary_block(chosen_summary(llm_summary, dropped)) + kept)
}

/// The content of a message cut to its first `max_lines` lines.
pub open spec fn truncated_content(content: Seq<char>, max_lines: nat) -> Seq<char> {
    let ls = lines(content);
    if ls.len() <= max_lines {
        content
    } else {
        join(ls.take(max_lines as int), "\n"@) + "\n[...truncated "@ + decimal(
            (ls.len() - max_lines) as nat,
        ) + " lines]"@
    }
}

// ───────────────────────────── the manager ─────────────────────────────

/// Estimates tokens, detects overflow and compacts a conversation.
pub struct ContextManager {
    /// Size of the context window in tokens.
    pub max_tokens: usize,
    /// Percentage of the window at which compaction is due (80 by default).
    pub compaction_threshold: u64,
    /// How many recent non-system messages compaction keeps.
    pub keep_recent: usize,
}

/// The names of the tools whose results compaction always keeps.
pub open spec fn protected_tool_names() -> Seq<Seq<char>> {
    Seq::empty()
}

/// The tools whose results compaction always keeps (none at present).
pub fn protected_tools() -> (r: Vec<Vec<char>>)
    ensures
        views(r@) == protected_tool_names(),
{
    let r: Vec<Vec<char>> = Vec::new();
    assert(views(r@) =~= protected_tool_names());
    r
}

fn is_cjk_exec(c: char) -> (b: bool)
    ensures
        b == is_cjk(c),
{
    let u = c as u32;
    (0x4E00 <= u && u <= 0x9FFF) || (0x3400 <= u && u <= 0x4DBF) || (0xF900 <= u && u <= 0xFAFF)
        || (0x2E80 <= u && u <= 0x2EFF) || (0x3000 <= u && u <= 0x303F) || (0xFF00 <= u && u
        <= 0xFFEF) || (0xFE30 <= u && u <= 0xFE4F)
}

proof fn lemma_cjk_count_le(s: Seq<char>)
    ensures
        cjk_count(s) <= s.len(),
    decreases s.len(),
{
    if s.len() > 0 {
        lemma_cjk_count_le(s.drop_last());
    }
}

/// Number of CJK characters of `s`.
fn cjk_count_exec(s: &[char]) -> (n: usize)
    ensures
        n == cjk_count(s@),
{
    let mut n: usize = 0;
    let mut i: usize = 0;
    while i < s.len()
        invariant
            i <= s.len(),
            n == cjk_count(s@.take(i as int)),
            n <= i,
        decreases s.len() - i,
    {
        proof {
            assert(s@.take(i + 1).drop_last() =~= s@.take(i as int));
        }
        if is_cjk_exec(s[i]) {
            n += 1;
        }
        i += 1;
    }
    assert(s@.take(s.len() as int) =~= s@);
    n
}

/// Estimated tokens of a text, computed without overflow.
fn text_tokens_wide(text: &str) -> (r: u128)
    ensures
        r == text_tokens(text@),
{
    let v = chars_of(text);
    let c = cjk_count_exec(v.as_slice());
    proof {
        lemma_cjk_count_le(v@);
    }
    let other = v.len() - c;
    (6 * (c as u128) + (other as u128)) / 4
}

/// Estimated tokens of a text inside a message (at least one).
fn text_tokens_min1_exec(text: &str) -> (r: u128)
    ensures
        r == text_tokens_min1(text@),
{
    let t = text_tokens_wide(text);
    if t < 1 {
        1
    } else {
        t
    }
}

fn calls_tokens_exec(cs: &Vec<ToolCall>) -> (r: u128)
    requires
        calls_tokens(calls_view(cs@)) <= usize::MAX,
    ensures
        r == calls_tokens(calls_view(cs@)),
{
    let mut total: u128 = 0;
    let mut i: usize = 0;
    while i < cs.len()
        invariant
            i <= cs.len(),
            total == calls_tokens(calls_view(cs@).take(i as int)),
            calls_tokens(calls_view(cs@)) <= usize::MAX,
        decreases cs.len() - i,
    {
        proof {
            assert(calls_view(cs@).take(i + 1).drop_last() =~= calls_view(cs@).take(i as int));
            lemma_calls_tokens_prefix(calls_view(cs@), i + 1);
        }
        let a = text_tokens_min1_exec(cs[i].name.as_str());
        let b = text_tokens_min1_exec(cs[i].arguments.as_str());
        total = total + a + b;
        i += 1;
    }
    assert(calls_view(cs@).take(cs.len() as int) =~= calls_view(cs@));
    total
}

proof fn lemma_calls_tokens_prefix(cs: Seq<ToolCallView>, k: int)
    requires
        0 <= k <= cs.len(),
    ensures
        calls_tokens(cs.take(k)) <= calls_tokens(cs),
    decreases cs.len() - k,
{
    if k < cs.len() {
        lemma_calls_tokens_prefix(cs, k + 1);
        assert(cs.take(k + 1).drop_last() =~= cs.take(k));
    } else {
        assert(cs.take(k) =~= cs);
    }
}

proof fn lemma_total_tokens_prefix(ms: Seq<MessageView>, k: int)
    requires
        0 <= k <= ms.len(),
    ensures
        total_tokens(ms.take(k)) <= total_tokens(ms),
    decreases ms.len() - k,
{
    if k < ms.len() {
        lemma_total_tokens_prefix(ms, k + 1);
        assert(ms.take(k + 1).drop_last() =~= ms.take(k));
    } else {
        assert(ms.take(k) =~= ms);
    }
}

/// Estimated tokens of one message.
fn message_tokens_exec(m: &Message) -> (r: usize)
    requires
        message_tokens(m@) <= usize::MAX,
    ensures
        r == message_tokens(m@),
{
    let c = text_tokens_min1_exec(m.content.as_str());
    let t = match &m.tool_calls {
        Some(cs) => calls_tokens_exec(cs),
        None => 0,
    };
    (c + t + 4) as usize
}

/// Estimated tokens of a conversation.
fn total_tokens_exec(messages: &[Message]) -> (r: usize)
    requires
        total_tokens(msgs_view(messages@)) <= usize::MAX,
    ensures
        r == total_tokens(msgs_view(messages@)),
{
    let ghost mv = msgs_view(messages@);
    let mut total: usize = 0;
    let mut i: usize = 0;
    while i < messages.len()
        invariant
            i <= messages.len(),
            mv == msgs_view(messages@),
            total == total_tokens(mv.take(i as int)),
            total_tokens(mv) <= usize::MAX,
        decreases messages.len() - i,
    {
        proof {
            assert(mv.take(i + 1).drop_last() =~= mv.take(i as int));
            assert(mv.take(i + 1).last() == messages@[i as int]@);
            lemma_total_tokens_prefix(mv, i + 1);
        }
        let t = message_tokens_exec(&messages[i]);
        total = total + t;
        i += 1;
    }
    assert(mv.take(messages.len() as int) =~= mv);
    total
}

impl ContextManager {
    /// A manager for a window of `max_tokens` tokens that compacts at 80 %
    /// and keeps the six most recent messages.
    pub fn new(max_tokens: usize) -> (r: ContextManager)
        ensures
            r.max_tokens == max_tokens,
            r.compaction_threshold == 80,
            r.keep_recent == 6,
    {
        ContextManager { max_tokens, compaction_threshold: 80, keep_recent: 6 }
    }

    /// The same manager, compacting at `threshold` percent of the window.
    pub fn with_threshold(self, threshold: u64) -> (r: ContextManager)
        ensures
            r.max_tokens == self.max_tokens,
            r.compaction_threshold == threshold,
            r.keep_recent == self.keep_recent,
    {
        ContextManager { compaction_threshold: threshold, ..self }
    }

    /// The same manager, keeping `keep_recent` recent messages.
    pub fn with_keep_recent(self, keep_recent: usize) -> (r: ContextManager)
        ensures
            r.max_tokens == self.max_tokens,
            r.compaction_threshold == self.compaction_threshold,
            r.keep_recent == keep_recent,
    {
        ContextManager { keep_recent, ..self }
    }

    /// Estimated tokens of a conversation.
    pub fn estimate_tokens(&self, messages: &[Message]) -> (r: usize)
        requires
            total_tokens(msgs_view(messages@)) <= usize::MAX,
        ensures
            r == total_tokens(msgs_view(messages@)),
    {
        total_tokens_exec(messages)
    }

    /// Estimated tokens of a text: 1.5 per CJK character, 0.25 per other one.
    pub fn estimate_text_tokens(text: &str) -> (r: usize)
        requires
            text_tokens(text@) <= usize::MAX,
        ensures
            r == text_tokens(text@),
    {
        text_tokens_wide(text) as usize
    }

    /// Whether the conversation has reached the compaction threshold.
    pub fn needs_compaction(&self, messages: &[Message]) -> (b: bool)
        requires
            total_tokens(msgs_view(messages@)) <= usize::MAX,
        ensures
            b == (100 * total_tokens(msgs_view(messages@)) >= self.max_tokens
                * self.compaction_threshold),
    {
        let tokens = total_tokens_exec(messages);
        let a = self.max_tokens as u128;
        let b = self.compaction_threshold as u128;
        proof {
            assert(a * b <= 0xffff_ffff_ffff_ffffu128 * 0xffff_ffff_ffff_ffffu128) by (nonlinear_arith)
                requires
                    a <= 0xffff_ffff_ffff_ffffu128,
                    b <= 0xffff_ffff_ffff_ffffu128,
            ;
        }
        100 * (tokens as u128) >= a * b
    }

    /// How full the window is.
    pub fn check_overflow(&self, messages: &[Message]) -> (l: OverflowLevel)
        requires
            total_tokens(msgs_view(messages@)) <= usize::MAX,
        ensures
            l == overflow_level(total_tokens(msgs_view(messages@)), self.max_tokens as nat),
    {
        let tokens = total_tokens_exec(messages);
        if self.max_tokens == 0 {
            if tokens == 0 {
                OverflowLevel::Normal
            } else {
                OverflowLevel::Critical
            }
        } else if tokens >= self.max_tokens {
            OverflowLevel::Critical
        } else if 100 * (tokens as u128) >= (WARNING_THRESHOLD as u128) * (
        self.max_tokens as u128) {
            OverflowLevel::Warning
        } else {
            OverflowLevel::Normal
        }
    }

    /// Whether the window is full.
    pub fn is_critical(&self, messages: &[Message]) -> (b: bool)
        requires
            total_tokens(msgs_view(messages@)) <= usize::MAX,
        ensures
            b == (overflow_level(total_tokens(msgs_view(messages@)), self.max_tokens as nat)
                == OverflowLevel::Critical),
    {
        let l = self.check_overflow(messages);
        match l {
            OverflowLevel::Critical => true,
            _ => false,
        }
    }

    /// The status that the overflow level maps to.
    pub fn get_status(&self, messages: &[Message]) -> (s: ContextStatus)
        requires
            total_tokens(msgs_view(messages@)) <= usize::MAX,
        ensures
            s == status_of(
                overflow_level(total_tokens(msgs_view(messages@)), self.max_tokens as nat),
            ),
    {
        match self.check_overflow(messages) {
            OverflowLevel::Normal => ContextStatus::Normal,
            OverflowLevel::Warning => ContextStatus::Warning,
            OverflowLevel::Critical => ContextStatus::Critical,
        }
    }

    /// Simple compaction: system messages, the given summary (when not empty)
    /// and the most recent other messages, sanitised.
    pub fn compact(&self, messages: &[Message], llm_summary: &str) -> (r: Vec<Message>)
        ensures
            msgs_view(r@) == compact_spec(
                msgs_view(messages@),
                self.keep_recent as nat,
                llm_summary@,
            ),
    {
        let (system, rest) = split_system(messages);
        let keep = if self.keep_recent < rest.len() {
            self.keep_recent
        } else {
            rest.len()
        };
        let split = rest.len() - keep;
        let mut result = system;
        push_summary(&mut result, llm_summary);
        append_range(&mut result, &rest, split);
        proof {
            let ns = non_system_msgs(msgs_view(messages@));
            assert(msgs_view(rest@).skip(split as int) =~= recent(ns, self.keep_recent as nat));
        }
        sanitize_messages(result)
    }

    /// Smart compaction: as [`ContextManager::compact`], but when the given
    /// summary is empty one is made from the messages that are dropped.
    pub fn smart_compact(&self, messages: &[Message], llm_summary: &str) -> (r: Vec<Message>)
        ensures
            msgs_view(r@) == smart_compact_spec(
                msgs_view(messages@),
                self.keep_recent as nat,
                llm_summary@,
            ),
    {
        let (system, rest) = split_system(messages);
        let keep = if self.keep_recent < rest.len() {
            self.keep_recent
        } else {
            rest.len()
        };
        let boundary = rest.len() - keep;
        let summary = if llm_summary.is_empty() {
            summarize_messages(&rest, boundary)
        } else {
            llm_summary.to_owned()
        };
        let mut result = system;
        push_summary(&mut result, summary.as_str());
        append_range(&mut result, &rest, boundary);
        proof {
            let ns = non_system_msgs(msgs_view(messages@));
            assert(msgs_view(rest@).skip(boundary as int) =~= recent(ns, self.keep_recent as nat));
            assert(msgs_view(rest@).take(boundary as int) =~= older(ns, self.keep_recent as nat));
        }
        sanitize_messages(result)
    }

    /// The message with its content cut to its first `max_lines` lines and a
    /// note of how many lines were cut.
    pub fn truncate_message(&self, msg: &Message, max_lines: usize) -> (r: Message)
        ensures
            r@ == (MessageView {
                content: truncated_content(msg@.content, max_lines as nat),
                ..msg@
            }),
    {
        let content = chars_of(msg.content.as_str());
        let ls = lines_exec(content.as_slice());
        if ls.len() <= max_lines {
            return msg.copy();
        }
        let first = slice_lines(&ls, max_lines);
        let sep = chars_of("\n");
        let mut text = join_exec(&first, sep.as_slice());
        append_str(&mut text, "\n[...truncated ");
        let n = decimal_exec((ls.len() - max_lines) as u64);
        append_chars(&mut text, n.as_slice());
        append_str(&mut text, " lines]");
        let tool_calls = match &msg.tool_calls {
            Some(cs) => Some(copy_calls(cs)),
            None => None,
        };
        let tool_call_id = match &msg.tool_call_id {
            Some(id) => Some(id.clone()),
            None => None,
        };
        proof {
            assert(views(first@) =~= lines(msg@.content).take(max_lines as int));
        }
        Message { role: msg.role, content: string_of(text.as_slice()), tool_calls, tool_call_id }
    }

    /// Enhanced compaction: keeps the newest messages until `PRUNE_PROTECT`
    /// tokens are kept (and every protected tool result), summarises the rest.
    pub fn smart_compact_enhanced(&self, messages: &[Message], llm_summary: &str) -> (r: Vec<
        Message,
    >)
        requires
            total_tokens(msgs_view(messages@)) <= usize::MAX,
        ensures
            msgs_view(r@) == enhanced_compact_spec(
                msgs_view(messages@),
                protected_tool_names(),
                llm_summary@,
            ),
    {
        let (system, rest) = split_system(messages);
        proof {
            lemma_non_system_tokens(msgs_view(messages@));
        }
        let names = protected_tools();
        let (dropped, kept) = protect_split_exec(&rest, &names);
        let summary = if llm_summary.is_empty() {
            let s = summarize_messages(&dropped, dropped.len());
            proof {
                assert(msgs_view(dropped@).take(dropped.len() as int) =~= msgs_view(dropped@));
            }
            s
        } else {
            llm_summary.to_owned()
        };
        let mut result = system;
        push_summary(&mut result, summary.as_str());
        append_range(&mut result, &kept, 0);
        proof {
            assert(msgs_view(kept@).skip(0) =~= msgs_view(kept@));
        }
        sanitize_messages(result)
    }
}

proof fn lemma_non_system_tokens(ms: Seq<MessageView>)
    ensures
        total_tokens(non_system_msgs(ms)) <= total_tokens(ms),
    decreases ms.len(),
{
    if ms.len() > 0 {
        let init = ms.drop_last();
        lemma_non_system_tokens(init);
        if ms.last().role != Role::System {
            assert(non_system_msgs(ms).drop_last() =~= non_system_msgs(init));
            assert(non_system_msgs(ms).last() == ms.last());
        }
    }
}

/// The first `k` lines.
fn slice_lines(ls: &Vec<Vec<char>>, k: usize) -> (r: Vec<Vec<char>>)
    requires
        k <= ls.len(),
    ensures
        views(r@) == views(ls@).take(k as int),
{
    let mut r: Vec<Vec<char>> = Vec::new();
    let mut i: usize = 0;
    while i < k
        invariant
            i <= k <= ls.len(),
            views(r@) == views(ls@).take(i as int),
        decreases k - i,
    {
        let line = crate::text::slice_vec(ls[i].as_slice(), 0, ls[i].len());
        assert(line@ =~= ls@[i as int]@);
        let ghost old_r = r@;
        r.push(line);
        assert(views(old_r).len() == i);
        assert(views(r@) =~= views(ls@).take(i + 1));
        i += 1;
    }
    r
}

/// Splits a conversation into its system messages and the others, in order.
fn split_system(messages: &[Message]) -> (r: (Vec<Message>, Vec<Message>))
    ensures
        msgs_view(r.0@) == system_msgs(msgs_view(messages@)),
        msgs_view(r.1@) == non_system_msgs(msgs_view(messages@)),
{
    let ghost mv = msgs_view(messages@);
    let mut system: Vec<Message> = Vec::new();
    let mut rest: Vec<Message> = Vec::new();
    let mut i: usize = 0;
    while i < messages.len()
        invariant
            i <= messages.len(),
            mv == msgs_view(messages@),
            msgs_view(system@) == system_msgs(mv.take(i as int)),
            msgs_view(rest@) == non_system_msgs(mv.take(i as int)),
        decreases messages.len() - i,
    {
        proof {
            assert(mv.take(i + 1).drop_last() =~= mv.take(i as int));
            assert(mv.take(i + 1).last() == messages@[i as int]@);
        }
        let m = messages[i].copy();
        let ghost old_s = system@;
        let ghost old_r = rest@;
        if m.role == Role::System {
            system.push(m);
            assert(msgs_view(old_s).len() == old_s.len());
            assert(msgs_view(system@) =~= msgs_view(old_s).push(m@));
        } else {
            rest.push(m);
            assert(msgs_view(old_r).len() == old_r.len());
            assert(msgs_view(rest@) =~= msgs_view(old_r).push(m@));
        }
        i += 1;
    }
    assert(mv.take(messages.len() as int) =~= mv);
    (system, rest)
}

/// Appends the summary message when the summary is not empty.
fn push_summary(result: &mut Vec<Message>, summary: &str)
    ensures
        msgs_view(final(result)@) == msgs_view(old(result)@) + summary_block(summary@),
{
    if summary.is_empty() {
        assert(msgs_view(result@) =~= msgs_view(result@) + summary_block(summary@));
        return;
    }
    let text = concat("[Previous conversation summary]\n", summary);
    let m = Message::system(text.as_str());
    let ghost old_r = result@;
    result.push(m);
    assert(msgs_view(old_r).len() == old_r.len());
    assert(msgs_view(result@) =~= msgs_view(old_r) + summary_block(summary@));
}

/// Appends copies of `src[from..]`.
fn append_range(result: &mut Vec<Message>, src: &Vec<Message>, from: usize)
    requires
        from <= src.len(),
    ensures
        msgs_view(final(result)@) == msgs_view(old(result)@) + msgs_view(src@).skip(from as int),
{
    let mut j = from;
    while j < src.len()
        invariant
            from <= j <= src.len(),
            msgs_view(result@) == msgs_view(old(result)@) + msgs_view(src@).subrange(
                from as int,
                j as int,
            ),
        decreases src.len() - j,
    {
        let m = src[j].copy();
        let ghost old_r = result@;
        result.push(m);
        assert(msgs_view(old_r).len() == old_r.len());
        assert(m@ == msgs_view(src@)[j as int]);
        assert(msgs_view(src@).subrange(from as int, j + 1) =~= msgs_view(src@).subrange(
            from as int,
            j as int,
        ).push(m@));
        assert(msgs_view(result@) =~= msgs_view(old_r).push(m@));
        assert(msgs_view(result@) =~= msgs_view(old(result)@) + msgs_view(src@).subrange(
            from as int,
            j + 1,
        ));
        j += 1;
    }
    assert(msgs_view(src@).subrange(from as int, src.len() as int) =~= msgs_view(src@).skip(
        from as int,
    ));
}

/// The summary of the first `k` messages of `ms`.
fn summarize_messages(ms: &Vec<Message>, k: usize) -> (r: String)
    requires
        k <= ms.len(),
    ensures
        r@ == summarize(msgs_view(ms@).take(k as int)),
{
    let ghost mv = msgs_view(ms@);
    let mut parts: Vec<Vec<char>> = Vec::new();
    let mut i: usize = 0;
    while i < k
        invariant
            i <= k <= ms.len(),
            mv == msgs_view(ms@),
            views(parts@) == summary_parts(mv.take(i as int)),
        decreases k - i,
    {
        proof {
            assert(mv.take(i + 1).drop_last() =~= mv.take(i as int));
            assert(mv.take(i + 1).last() == ms@[i as int]@);
        }
        let p = summary_part_exec(&ms[i]);
        let ghost old_p = parts@;
        match p {
            Some(line) => {
                parts.push(line);
                assert(views(old_p).len() == old_p.len());
                assert(views(parts@) =~= views(old_p) + seq![line@]);
            },
            None => {},
        }
        i += 1;
    }
    let sep = chars_of("\n");
    let joined = join_exec(&parts, sep.as_slice());
    assert(mv.take(k as int) == msgs_view(ms@).take(k as int));
    string_of(joined.as_slice())
}

/// The summary line of one message.
fn summary_part_exec(m: &Message) -> (r: Option<Vec<char>>)
    ensures
        match r {
            Some(v) => summary_part(m@) == Some(v@),
            None => summary_part(m@) is None,
        },
{
    let content = chars_of(m.content.as_str());
    match m.role {
        Role::User => {
            let p = take_chars_exec(content.as_slice(), 100);
            if p.len() > 0 {
                let mut v: Vec<char> = Vec::new();
                append_str(&mut v, "User asked: ");
                append_chars(&mut v, p.as_slice());
                assert(v@ =~= "User asked: "@ + p@);
                Some(v)
            } else {
                None
            }
        },
        Role::Assistant => match &m.tool_calls {
            Some(cs) => {
                let mut names: Vec<Vec<char>> = Vec::new();
                let mut j: usize = 0;
                while j < cs.len()
                    invariant
                        j <= cs.len(),
                        views(names@) == call_names(calls_view(cs@)).take(j as int),
                    decreases cs.len() - j,
                {
                    let n = chars_of(cs[j].name.as_str());
                    let ghost old_n = names@;
                    names.push(n);
                    assert(views(old_n).len() == j);
                    assert(views(names@) =~= call_names(calls_view(cs@)).take(j + 1));
                    j += 1;
                }
                assert(call_names(calls_view(cs@)).take(cs.len() as int) =~= call_names(
                    calls_view(cs@),
                ));
                let sep = chars_of(", ");
                let joined = join_exec(&names, sep.as_slice());
                let mut v: Vec<char> = Vec::new();
                append_str(&mut v, "Assistant used tools: ");
                append_chars(&mut v, joined.as_slice());
                Some(v)
            },
            None => {
                let p = take_chars_exec(content.as_slice(), 100);
                if p.len() > 0 {
                    let mut v: Vec<char> = Vec::new();
                    append_str(&mut v, "Assistant said: ");
                    append_chars(&mut v, p.as_slice());
                    Some(v)
                } else {
                    None
                }
            },
        },
        Role::Tool => {
            let p = take_chars_exec(content.as_slice(), 50);
            let mut v: Vec<char> = Vec::new();
            append_str(&mut v, "Tool result: ");
            append_chars(&mut v, p.as_slice());
            append_str(&mut v, "...");
            Some(v)
        },
        Role::System => None,
    }
}

// ───────────────────────────── the enhanced split ─────────────────────────────

/// Whether `id` is one of `ids`.
pub fn contains_id(ids: &Vec<Vec<char>>, id: &[char]) -> (r: bool)
    ensures
        r == views(ids@).contains(id@),
{
    let mut i: usize = 0;
    while i < ids.len()
        invariant
            i <= ids.len(),
            forall|j: int| 0 <= j < i ==> ids@[j]@ != id@,
        decreases ids.len() - i,
    {
        if chars_eq(ids[i].as_slice(), id) {
            assert(views(ids@)[i as int] == id@);
            return true;
        }
        i += 1;
    }
    proof {
        if views(ids@).contains(id@) {
            let j = choose|j: int| 0 <= j < views(ids@).len() && views(ids@)[j] == id@;
            assert(ids@[j]@ == id@);
        }
    }
    false
}

/// The ids of calls in `ns` whose tool name is one of `names`.
fn protected_ids(ns: &Vec<Message>, names: &Vec<Vec<char>>) -> (r: Vec<Vec<char>>)
    ensures
        forall|id: Seq<char>|
            views(r@).contains(id) <==> protected_id(msgs_view(ns@), views(names@), id),
{
    let ghost mv = msgs_view(ns@);
    let ghost nv = views(names@);
    let mut r: Vec<Vec<char>> = Vec::new();
    let mut i: usize = 0;
    while i < ns.len()
        invariant
            i <= ns.len(),
            mv == msgs_view(ns@),
            nv == views(names@),
            forall|id: Seq<char>|
                views(r@).contains(id) <==> exists|a: int, b: int|
                    a < i && #[trigger] protected_call(mv, nv, a, b, id),
        decreases ns.len() - i,
    {
        match &ns[i].tool_calls {
            Some(cs) => {
                let mut j: usize = 0;
                while j < cs.len()
                    invariant
                        i < ns.len(),
                        j <= cs.len(),
                        mv == msgs_view(ns@),
                        nv == views(names@),
                        mv[i as int].tool_calls == Some(calls_view(cs@)),
                        forall|id: Seq<char>|
                            views(r@).contains(id) <==> exists|a: int, b: int|
                                (a < i || (a == i && b < j)) && #[trigger] protected_call(
                                    mv,
                                    nv,
                                    a,
                                    b,
                                    id,
                                ),
                    decreases cs.len() - j,
                {
                    let nm = chars_of(cs[j].name.as_str());
                    let ghost c = calls_view(cs@)[j as int];
                    assert(c == cs@[j as int]@);
                    assert(call_at(mv, i as int, j as int) == Some(c));
                    let is_prot = contains_id(names, nm.as_slice());
                    let ghost old_r = r@;
                    if is_prot {
                        let idv = chars_of(cs[j].id.as_str());
                        r.push(idv);
                        proof {
                            assert(views(r@) =~= views(old_r).push(idv@));
                        }
                    }
                    proof {
                        assert forall|id: Seq<char>|
                            views(r@).contains(id) <==> exists|a: int, b: int|
                                (a < i || (a == i && b < j + 1)) && #[trigger] protected_call(
                                    mv,
                                    nv,
                                    a,
                                    b,
                                    id,
                                ) by {
                            let here = protected_call(mv, nv, i as int, j as int, id);
                            assert(here == (is_prot && c.id == id));
                            if views(r@).contains(id) {
                                let p = choose|p: int|
                                    0 <= p < views(r@).len() && views(r@)[p] == id;
                                if p < views(old_r).len() {
                                    assert(views(old_r)[p] == id);
                                    assert(views(old_r).contains(id));
                                } else {
                                    assert(here);
                                }
                            }
                            if exists|a: int, b: int|
                                (a < i || (a == i && b < j + 1)) && #[trigger] protected_call(
                                    mv,
                                    nv,
                                    a,
                                    b,
                                    id,
                                ) {
                                let (a, b) = choose|a: int, b: int|
                                    (a < i || (a == i && b < j + 1)) && #[trigger] protected_call(
                                        mv,
                                        nv,
                                        a,
                                        b,
                                        id,
                                    );
                                if a == i && b == j {
                                    assert(views(r@)[views(old_r).len() as int] == id);
                                } else {
                                    assert(views(old_r).contains(id));
                                    let p = choose|p: int|
                                        0 <= p < views(old_r).len() && views(old_r)[p] == id;
                                    assert(views(r@)[p] == id);
                                }
                            }
                        }
                    }
                    j += 1;
                }
                proof {
                    assert forall|id: Seq<char>|
                        views(r@).contains(id) <==> exists|a: int, b: int|
                            a < i + 1 && #[trigger] protected_call(mv, nv, a, b, id) by {
                        if exists|a: int, b: int|
                            a < i + 1 && #[trigger] protected_call(mv, nv, a, b, id) {
                            let (a, b) = choose|a: int, b: int|
                                a < i + 1 && #[trigger] protected_call(mv, nv, a, b, id);
                            if a == i {
                                assert(b < cs.len());
                            }
                            assert((a < i || (a == i && b < cs.len())) && protected_call(
                                mv,
                                nv,
                                a,
                                b,
                                id,
                            ));
                        }
                    }
                }
            },
            None => {
                proof {
                    assert forall|id: Seq<char>|
                        views(r@).contains(id) <==> exists|a: int, b: int|
                            a < i + 1 && #[trigger] protected_call(mv, nv, a, b, id) by {
                        if exists|a: int, b: int|
                            a < i + 1 && #[trigger] protected_call(mv, nv, a, b, id) {
                            let (a, b) = choose|a: int, b: int|
                                a < i + 1 && #[trigger] protected_call(mv, nv, a, b, id);
                            assert(a != i);
                        }
                    }
                }
            },
        }
        i += 1;
    }
    proof {
        assert forall|id: Seq<char>|
            views(r@).contains(id) <==> protected_id(mv, nv, id) by {
            if protected_id(mv, nv, id) {
                let (a, b) = choose|a: int, b: int| #[trigger] protected_call(mv, nv, a, b, id);
                assert(a < i);
            }
        }
    }
    r
}

/// The split of the enhanced compaction: `(dropped, kept)`, both in order.
fn protect_split_exec(ns: &Vec<Message>, names: &Vec<Vec<char>>) -> (r: (Vec<Message>, Vec<Message>))
    requires
        total_tokens(msgs_view(ns@)) <= usize::MAX,
    ensures
        (msgs_view(r.0@), msgs_view(r.1@)) == protect_split(
            msgs_view(ns@),
            views(names@),
            ns@.len() as int,
            0,
        ),
{
    let ghost mv = msgs_view(ns@);
    let ids = protected_ids(ns, names);
    let mut dropped: Vec<Message> = Vec::new();
    let mut kept: Vec<Message> = Vec::new();
    let mut budget: usize = 0;
    let mut k: usize = ns.len();
    proof {
        assert(msgs_view(dropped@) =~= Seq::<MessageView>::empty());
        assert(msgs_view(kept@) =~= Seq::<MessageView>::empty());
        assert(mv.skip(ns.len() as int) =~= Seq::<MessageView>::empty());
        assert(mv.take(ns.len() as int) =~= mv);
    }
    while k > 0
        invariant
            k <= ns.len(),
            mv == msgs_view(ns@),
            total_tokens(mv) <= usize::MAX,
            budget + total_tokens(mv.take(k as int)) <= total_tokens(mv),
            forall|id: Seq<char>|
                views(ids@).contains(id) <==> protected_id(mv, views(names@), id),
            ({
                let (d, kk) = protect_split(mv, views(names@), k as int, budget as nat);
                protect_split(mv, views(names@), ns@.len() as int, 0) == (d + msgs_view(
                    dropped@,
                ), kk + msgs_view(kept@))
            }),
        decreases k,
    {
        let m = &ns[k - 1];
        let ghost mvw = mv[k - 1];
        assert(mvw == m@);
        let protected = match (&m.role, &m.tool_call_id) {
            (Role::Tool, Some(id)) => {
                let idv = chars_of(id.as_str());
                contains_id(&ids, idv.as_slice())
            },
            _ => false,
        };
        proof {
            assert(protected == is_protected(mv, views(names@), mvw));
            assert(mv.take(k as int).drop_last() =~= mv.take(k - 1));
            assert(mv.take(k as int).last() == mvw);
        }
        let ghost old_d = dropped@;
        let ghost old_k = kept@;
        if budget < PRUNE_PROTECT || protected {
            let t = message_tokens_exec(m);
            budget = budget + t;
            kept.insert(0, m.copy());
            proof {
                assert(msgs_view(old_k).len() == old_k.len());
                assert(msgs_view(kept@) =~= seq![mvw] + msgs_view(old_k));
                let (d, kk) = protect_split(mv, views(names@), k - 1, budget as nat);
                assert(kk.push(mvw) + msgs_view(old_k) =~= kk + msgs_view(kept@));
            }
        } else {
            dropped.insert(0, m.copy());
            proof {
                assert(msgs_view(old_d).len() == old_d.len());
                assert(msgs_view(dropped@) =~= seq![mvw] + msgs_view(old_d));
                let (d, kk) = protect_split(mv, views(names@), k - 1, budget as nat);
                assert(d.push(mvw) + msgs_view(old_d) =~= d + msgs_view(dropped@));
            }
        }
        k -= 1;
    }
    proof {
        assert(msgs_view(dropped@) =~= Seq::<MessageView>::empty() + msgs_view(dropped@));
        assert(msgs_view(kept@) =~= Seq::<MessageView>::empty() + msgs_view(kept@));
    }
    (dropped, kept)
}

// ───────────────────────────── sanitising (exec) ─────────────────────────────

/// Removes tool results whose call no assistant message declares, and clears
/// the calls of assistant messages none of whose calls has a result.
pub fn sanitize_messages(messages: Vec<Message>) -> (r: Vec<Message>)
    ensures
        msgs_view(r@) == sanitize(msgs_view(messages@)),
{
    let ghost mv = msgs_view(messages@);
    let (declared_ids, result_ids) = collect_ids(&messages);
    let mut result: Vec<Message> = Vec::new();
    let mut i: usize = 0;
    while i < messages.len()
        invariant
            i <= messages.len(),
            mv == msgs_view(messages@),
            msgs_view(result@) == sanitize_upto(mv, i as int),
            forall|id: Seq<char>| views(declared_ids@).contains(id) <==> declared(mv, id),
            forall|id: Seq<char>| views(result_ids@).contains(id) <==> answered(mv, id),
        decreases messages.len() - i,
    {
        let m = &messages[i];
        let ghost mvw = mv[i as int];
        assert(mvw == m@);
        let out = sanitize_one_exec(m, &declared_ids, &result_ids, Ghost(mv));
        let ghost old_r = result@;
        match out {
            Some(x) => {
                result.push(x);
                assert(msgs_view(old_r).len() == old_r.len());
                assert(msgs_view(result@) =~= msgs_view(old_r) + seq![x@]);
            },
            None => {},
        }
        i += 1;
    }
    result
}

fn sanitize_one_exec(
    m: &Message,
    declared_ids: &Vec<Vec<char>>,
    result_ids: &Vec<Vec<char>>,
    Ghost(mv): Ghost<Seq<MessageView>>,
) -> (r: Option<Message>)
    requires
        forall|id: Seq<char>| views(declared_ids@).contains(id) <==> declared(mv, id),
        forall|id: Seq<char>| views(result_ids@).contains(id) <==> answered(mv, id),
    ensures
        match r {
            Some(x) => sanitize_one(mv, m@) == Some(x@),
            None => sanitize_one(mv, m@) is None,
        },
{
    match m.role {
        Role::Tool => match &m.tool_call_id {
            Some(id) => {
                let idv = chars_of(id.as_str());
                if contains_id(declared_ids, idv.as_slice()) {
                    Some(m.copy())
                } else {
                    None
                }
            },
            None => Some(m.copy()),
        },
        Role::Assistant => match &m.tool_calls {
            Some(cs) => {
                let mut any = false;
                let mut j: usize = 0;
                while j < cs.len()
                    invariant
                        j <= cs.len(),
                        forall|id: Seq<char>|
                            views(result_ids@).contains(id) <==> answered(mv, id),
                        any == exists|q: int| 0 <= q < j && answered(mv, cs@[q].id@),
                    decreases cs.len() - j,
                {
                    let idv = chars_of(cs[j].id.as_str());
                    if contains_id(result_ids, idv.as_slice()) {
                        any = true;
                    }
                    j += 1;
                }
                proof {
                    let cv = calls_view(cs@);
                    assert(some_call_answered(mv, cv) == any) by {
                        if some_call_answered(mv, cv) {
                            let q = choose|q: int| 0 <= q < cv.len() && answered(mv, cv[q].id);
                            assert(cv[q] == cs@[q]@);
                        }
                        if any {
                            let q = choose|q: int| 0 <= q < cs.len() && answered(mv, cs@[q].id@);
                            assert(cv[q] == cs@[q]@);
                        }
                    }
                }
                if !any && cs.len() > 0 {
                    Some(
                        Message {
                            role: m.role,
                            content: m.content.clone(),
                            tool_calls: None,
                            tool_call_id: match &m.tool_call_id {
                                Some(id) => Some(id.clone()),
                                None => None,
                            },
                        },
                    )
                } else {
                    Some(m.copy())
                }
            },
            None => Some(m.copy()),
        },
        _ => Some(m.copy()),
    }
}

/// The ids of the calls `cs`.
pub open spec fn call_ids(cs: Seq<ToolCallView>) -> Seq<Seq<char>> {
    Seq::new(cs.len(), |j: int| cs[j].id)
}

/// Appends the ids of the calls `cs` to `dst`.
fn push_ids(dst: &mut Vec<Vec<char>>, cs: &Vec<ToolCall>)
    ensures
        views(final(dst)@) == views(old(dst)@) + call_ids(calls_view(cs@)),
{
    let mut j: usize = 0;
    while j < cs.len()
        invariant
            j <= cs.len(),
            views(dst@) == views(old(dst)@) + call_ids(calls_view(cs@)).take(j as int),
        decreases cs.len() - j,
    {
        let idv = chars_of(cs[j].id.as_str());
        let ghost before = dst@;
        dst.push(idv);
        proof {
            assert(views(before).len() == before.len());
            assert(call_ids(calls_view(cs@))[j as int] == idv@);
            assert(views(dst@) =~= views(before).push(idv@));
            assert(call_ids(calls_view(cs@)).take(j + 1) =~= call_ids(calls_view(cs@)).take(
                j as int,
            ).push(idv@));
            assert(views(dst@) =~= views(old(dst)@) + call_ids(calls_view(cs@)).take(j + 1));
        }
        j += 1;
    }
    assert(call_ids(calls_view(cs@)).take(cs.len() as int) =~= call_ids(calls_view(cs@)));
}

proof fn lemma_contains_concat(a: Seq<Seq<char>>, b: Seq<Seq<char>>, x: Seq<char>)
    ensures
        (a + b).contains(x) <==> (a.contains(x) || b.contains(x)),
{
    if (a + b).contains(x) {
        let p = choose|p: int| 0 <= p < (a + b).len() && (a + b)[p] == x;
        if p < a.len() {
            assert(a[p] == x);
        } else {
            assert(b[p - a.len()] == x);
        }
    }
    if a.contains(x) {
        let p = choose|p: int| 0 <= p < a.len() && a[p] == x;
        assert((a + b)[p] == x);
    }
    if b.contains(x) {
        let p = choose|p: int| 0 <= p < b.len() && b[p] == x;
        assert((a + b)[a.len() + p] == x);
    }
}

proof fn lemma_declares_ids(m: MessageView, id: Seq<char>)
    ensures
        declares(m, id) <==> (m.role == Role::Assistant && match m.tool_calls {
            Some(cs) => call_ids(cs).contains(id),
            None => false,
        }),
{
    match m.tool_calls {
        Some(cs) => {
            if declares(m, id) {
                let j = choose|j: int| 0 <= j < cs.len() && cs[j].id == id;
                assert(call_ids(cs)[j] == id);
            }
            if call_ids(cs).contains(id) {
                let j = choose|j: int| 0 <= j < call_ids(cs).len() && call_ids(cs)[j] == id;
                assert(cs[j].id == id);
            }
        },
        None => {},
    }
}

proof fn lemma_declared_step(ms: Seq<MessageView>, i: int, id: Seq<char>)
    requires
        0 <= i < ms.len(),
    ensures
        declared(ms.take(i + 1), id) <==> (declared(ms.take(i), id) || declares(ms[i], id)),
{
    let a = ms.take(i);
    let b = ms.take(i + 1);
    if declared(b, id) {
        let q = choose|q: int| 0 <= q < b.len() && declares(b[q], id);
        if q < i {
            assert(declares(a[q], id));
        }
    }
    if declared(a, id) {
        let q = choose|q: int| 0 <= q < a.len() && declares(a[q], id);
        assert(declares(b[q], id));
    }
    if declares(ms[i], id) {
        assert(declares(b[i], id));
    }
}

proof fn lemma_answered_step(ms: Seq<MessageView>, i: int, id: Seq<char>)
    requires
        0 <= i < ms.len(),
    ensures
        answered(ms.take(i + 1), id) <==> (answered(ms.take(i), id) || answers(ms[i], id)),
{
    let a = ms.take(i);
    let b = ms.take(i + 1);
    if answered(b, id) {
        let q = choose|q: int| 0 <= q < b.len() && answers(b[q], id);
        if q < i {
            assert(answers(a[q], id));
        }
    }
    if answered(a, id) {
        let q = choose|q: int| 0 <= q < a.len() && answers(a[q], id);
        assert(answers(b[q], id));
    }
    if answers(ms[i], id) {
        assert(answers(b[i], id));
    }
}

/// The ids that assistant messages declare and the ids that tool results answer.
fn collect_ids(messages: &Vec<Message>) -> (r: (Vec<Vec<char>>, Vec<Vec<char>>))
    ensures
        forall|id: Seq<char>|
            views(r.0@).contains(id) <==> declared(msgs_view(messages@), id),
        forall|id: Seq<char>| views(r.1@).contains(id) <==> answered(msgs_view(messages@), id),
{
    let ghost mv = msgs_view(messages@);
    let mut decl: Vec<Vec<char>> = Vec::new();
    let mut res: Vec<Vec<char>> = Vec::new();
    let mut i: usize = 0;
    while i < messages.len()
        invariant
            i <= messages.len(),
            mv == msgs_view(messages@),
            forall|id: Seq<char>| views(decl@).contains(id) <==> declared(mv.take(i as int), id),
            forall|id: Seq<char>| views(res@).contains(id) <==> answered(mv.take(i as int), id),
        decreases messages.len() - i,
    {
        let m = &messages[i];
        assert(mv[i as int] == m@);
        let ghost old_d = decl@;
        let ghost old_r = res@;
        if m.role == Role::Assistant {
            match &m.tool_calls {
                Some(cs) => {
                    push_ids(&mut decl, cs);
                },
                None => {},
            }
        }
        proof {
            assert forall|id: Seq<char>|
                views(decl@).contains(id) <==> declared(mv.take(i + 1), id) by {
                lemma_declared_step(mv, i as int, id);
                lemma_declares_ids(m@, id);
                if m.role == Role::Assistant {
                    match m.tool_calls {
                        Some(cs) => {
                            lemma_contains_concat(views(old_d), call_ids(calls_view(cs@)), id);
                        },
                        None => {},
                    }
                }
            }
        }
        if m.role == Role::Tool {
            match &m.tool_call_id {
                Some(id) => {
                    let idv = chars_of(id.as_str());
                    res.push(idv);
                    proof {
                        assert(views(res@) =~= views(old_r) + seq![idv@]);
                    }
                },
                None => {},
            }
        }
        proof {
            assert forall|x: Seq<char>| views(res@).contains(x) <==> answered(mv.take(i + 1), x) by {
                lemma_answered_step(mv, i as int, x);
                if m.role == Role::Tool {
                    match m.tool_call_id {
                        Some(id) => {
                            lemma_contains_concat(views(old_r), seq![id@], x);
                            if seq![id@].contains(x) {
                                assert(seq![id@][0] == x);
                            }
                            if x == id@ {
                                assert(seq![id@][0] == x);
                            }
                        },
                        None => {},
                    }
                }
            }
        }
        i += 1;
    }
    assert(mv.take(messages.len() as int) =~= mv);
    (decl, res)
}

// ───────────────────────────── laws ─────────────────────────────

/// `x` is what sanitising makes of one of the first `n` messages of `ms`.
pub open spec fn kept_from(ms: Seq<MessageView>, n: int, x: MessageView) -> bool {
    exists|i: int| 0 <= i < n && sanitize_one(ms, #[trigger] ms[i]) == Some(x)
}

/// Messages that come out of sanitising `ms` come from messages of `ms`, and
/// every message that sanitising keeps does come out.
proof fn lemma_sanitize_members(ms: Seq<MessageView>, n: int)
    requires
        0 <= n <= ms.len(),
    ensures
        forall|k: int|
            0 <= k < sanitize_upto(ms, n).len() ==> kept_from(
                ms,
                n,
                #[trigger] sanitize_upto(ms, n)[k],
            ),
        forall|i: int|
            0 <= i < n && (#[trigger] sanitize_one(ms, ms[i])) is Some ==> sanitize_upto(
                ms,
                n,
            ).contains(sanitize_one(ms, ms[i])->0),
    decreases n,
{
    if n > 0 {
        lemma_sanitize_members(ms, n - 1);
        let prev = sanitize_upto(ms, n - 1);
        let cur = sanitize_upto(ms, n);
        assert forall|k: int| 0 <= k < cur.len() implies kept_from(ms, n, #[trigger] cur[k]) by {
            if k < prev.len() {
                assert(cur[k] == prev[k]);
                assert(kept_from(ms, n - 1, prev[k]));
                let i = choose|i: int| 0 <= i < n - 1 && sanitize_one(ms, #[trigger] ms[i]) == Some(prev[k]);
                assert(sanitize_one(ms, ms[i]) == Some(cur[k]));
            } else {
                assert(sanitize_one(ms, ms[n - 1]) == Some(cur[k]));
            }
        }
        assert forall|i: int|
            0 <= i < n && (#[trigger] sanitize_one(ms, ms[i])) is Some implies cur.contains(
            sanitize_one(ms, ms[i])->0) by {
            if i < n - 1 {
                let x = sanitize_one(ms, ms[i])->0;
                assert(prev.contains(x));
                let k = choose|k: int| 0 <= k < prev.len() && prev[k] == x;
                assert(cur[k] == x);
            } else {
                assert(cur[prev.len() as int] == sanitize_one(ms, ms[i])->0);
            }
        }
    }
}

/// A conversation each of whose messages sanitising keeps unchanged is its own
/// sanitisation, up to its first `n` messages.
proof fn lemma_sanitize_fixed(t: Seq<MessageView>, n: int)
    requires
        0 <= n <= t.len(),
        forall|k: int| 0 <= k < t.len() ==> sanitize_one(t, #[trigger] t[k]) == Some(t[k]),
    ensures
        sanitize_upto(t, n) == t.take(n),
    decreases n,
{
    if n > 0 {
        lemma_sanitize_fixed(t, n - 1);
        assert(sanitize_one(t, t[n - 1]) == Some(t[n - 1]));
        assert(t.take(n) =~= t.take(n - 1) + seq![t[n - 1]]);
    } else {
        assert(t.take(0) =~= Seq::<MessageView>::empty());
    }
}

/// A tool result that sanitising keeps still has its declaration afterwards.
proof fn lemma_kept_result_declared(ms: Seq<MessageView>, id: Seq<char>, t: int)
    requires
        0 <= t < ms.len(),
        answers(ms[t], id),
        declared(ms, id),
    ensures
        declared(sanitize(ms), id),
{
    let s = sanitize(ms);
    lemma_sanitize_members(ms, ms.len() as int);
    let a = choose|a: int| 0 <= a < ms.len() && declares(ms[a], id);
    let cs = ms[a].tool_calls->0;
    let j = choose|j: int| 0 <= j < cs.len() && cs[j].id == id;
    assert(answered(ms, cs[j].id));
    assert(some_call_answered(ms, cs));
    assert(sanitize_one(ms, ms[a]) == Some(ms[a]));
    assert(s.contains(ms[a]));
    let k = choose|k: int| 0 <= k < s.len() && s[k] == ms[a];
    assert(declares(s[k], id));
}

/// No orphans: every tool result left by sanitising answers a tool call that an
/// assistant message left by sanitising declares.
pub proof fn law_sanitize_no_orphans(ms: Seq<MessageView>)
    ensures
        forall|k: int, id: Seq<char>|
            0 <= k < sanitize(ms).len() && #[trigger] answers(sanitize(ms)[k], id) ==> declared(
                sanitize(ms),
                id,
            ),
{
    let s = sanitize(ms);
    lemma_sanitize_members(ms, ms.len() as int);
    assert forall|k: int, id: Seq<char>|
        0 <= k < s.len() && #[trigger] answers(s[k], id) implies declared(s, id) by {
        assert(kept_from(ms, ms.len() as int, s[k]));
        let i = choose|i: int| 0 <= i < ms.len() && sanitize_one(ms, #[trigger] ms[i]) == Some(s[k]);
        assert(ms[i] == s[k]);
        lemma_kept_result_declared(ms, id, i);
    }
}

/// Sanitising twice gives what sanitising once gives.
pub proof fn law_sanitize_idempotent(ms: Seq<MessageView>)
    ensures
        sanitize(sanitize(ms)) == sanitize(ms),
{
    let s = sanitize(ms);
    lemma_sanitize_members(ms, ms.len() as int);
    assert forall|k: int| 0 <= k < s.len() implies sanitize_one(s, #[trigger] s[k]) == Some(
        s[k],
    ) by {
        assert(kept_from(ms, ms.len() as int, s[k]));
        let i = choose|i: int| 0 <= i < ms.len() && sanitize_one(ms, #[trigger] ms[i]) == Some(s[k]);
        let x = s[k];
        let m = ms[i];
        match m.role {
            Role::Tool => {
                match m.tool_call_id {
                    Some(id) => {
                        lemma_kept_result_declared(ms, id, i);
                    },
                    None => {},
                }
            },
            Role::Assistant => {
                match m.tool_calls {
                    Some(cs) => {
                        if cs.len() > 0 && some_call_answered(ms, cs) {
                            let j = choose|j: int| 0 <= j < cs.len() && answered(ms, cs[j].id);
                            let id = cs[j].id;
                            let t = choose|t: int| 0 <= t < ms.len() && answers(ms[t], id);
                            assert(declares(m, id));
                            assert(declared(ms, id));
                            assert(sanitize_one(ms, ms[t]) == Some(ms[t]));
                            assert(s.contains(ms[t]));
                            let q = choose|q: int| 0 <= q < s.len() && s[q] == ms[t];
                            assert(answers(s[q], id));
                            assert(answered(s, cs[j].id));
                            assert(some_call_answered(s, cs));
                        }
                    },
                    None => {},
                }
            },
            _ => {},
        }
    }
    lemma_sanitize_fixed(s, s.len() as int);
    assert(s.take(s.len() as int) =~= s);
}

/// Sanitising `ms` keeps its first `n` messages when they are all system messages.
proof fn lemma_sanitize_system_prefix(ms: Seq<MessageView>, n: int)
    requires
        0 <= n <= ms.len(),
        forall|k: int| 0 <= k < n ==> (#[trigger] ms[k]).role == Role::System,
    ensures
        sanitize_upto(ms, n) == ms.take(n),
    decreases n,
{
    if n > 0 {
        lemma_sanitize_system_prefix(ms, n - 1);
        assert(ms[n - 1].role == Role::System);
        assert(ms.take(n) =~= ms.take(n - 1) + seq![ms[n - 1]]);
    } else {
        assert(ms.take(0) =~= Seq::<MessageView>::empty());
    }
}

proof fn lemma_sanitize_upto_prefix(ms: Seq<MessageView>, a: int, b: int)
    requires
        0 <= a <= b <= ms.len(),
    ensures
        sanitize_upto(ms, b).take(sanitize_upto(ms, a).len() as int) == sanitize_upto(ms, a),
        sanitize_upto(ms, a).len() <= sanitize_upto(ms, b).len(),
        sanitize_upto(ms, b).len() <= sanitize_upto(ms, a).len() + (b - a),
    decreases b - a,
{
    if a < b {
        lemma_sanitize_upto_prefix(ms, a, b - 1);
        let x = sanitize_upto(ms, b - 1);
        let y = sanitize_upto(ms, b);
        assert(y.take(x.len() as int) =~= x);
        let pa = sanitize_upto(ms, a);
        assert(y.take(pa.len() as int) =~= x.take(pa.len() as int));
    } else {
        assert(sanitize_upto(ms, b).take(sanitize_upto(ms, a).len() as int) =~= sanitize_upto(
            ms,
            a,
        ));
    }
}

proof fn lemma_system_msgs_all_system(ms: Seq<MessageView>)
    ensures
        forall|k: int| 0 <= k < system_msgs(ms).len() ==> (#[trigger] system_msgs(ms)[k]).role
            == Role::System,
        system_msgs(ms).len() <= ms.len(),
        non_system_msgs(ms).len() <= ms.len(),
    decreases ms.len(),
{
    if ms.len() > 0 {
        lemma_system_msgs_all_system(ms.drop_last());
    }
}

/// Compaction keeps the system messages first, in order, followed by the
/// summary message when the summary is not empty.
pub proof fn law_compact_keeps_system_and_summary(
    ms: Seq<MessageView>,
    keep: nat,
    summary: Seq<char>,
)
    ensures
        compact_spec(ms, keep, summary).take(
            (system_msgs(ms) + summary_block(summary)).len() as int,
        ) == system_msgs(ms) + summary_block(summary),
{
    let head = system_msgs(ms) + summary_block(summary);
    let all = head + recent(non_system_msgs(ms), keep);
    lemma_system_msgs_all_system(ms);
    assert forall|k: int| 0 <= k < head.len() implies (#[trigger] all[k]).role == Role::System by {
        assert(all[k] == head[k]);
        if k >= system_msgs(ms).len() {
            assert(head[k] == summary_block(summary)[k - system_msgs(ms).len()]);
        }
    }
    lemma_sanitize_system_prefix(all, head.len() as int);
    lemma_sanitize_upto_prefix(all, head.len() as int, all.len() as int);
    assert(all.take(head.len() as int) =~= head);
}

/// Compaction leaves no orphaned tool result.
pub proof fn law_compact_no_orphans(ms: Seq<MessageView>, keep: nat, summary: Seq<char>)
    ensures
        forall|k: int, id: Seq<char>|
            0 <= k < compact_spec(ms, keep, summary).len() && #[trigger] answers(
                compact_spec(ms, keep, summary)[k],
                id,
            ) ==> declared(compact_spec(ms, keep, summary), id),
{
    law_sanitize_no_orphans(
        system_msgs(ms) + summary_block(summary) + recent(non_system_msgs(ms), keep),
    );
}

/// Compaction leaves at most the system messages, one summary and `keep`
/// other messages.
pub proof fn law_compact_size(ms: Seq<MessageView>, keep: nat, summary: Seq<char>)
    ensures
        compact_spec(ms, keep, summary).len() <= system_msgs(ms).len() + 1 + keep,
{
    let all = system_msgs(ms) + summary_block(summary) + recent(non_system_msgs(ms), keep);
    lemma_sanitize_upto_prefix(all, 0, all.len() as int);
}

/// The token estimate of two conversations put together is the sum of their estimates.
pub proof fn law_total_tokens_additive(a: Seq<MessageView>, b: Seq<MessageView>)
    ensures
        total_tokens(a + b) == total_tokens(a) + total_tokens(b),
    decreases b.len(),
{
    if b.len() == 0 {
        assert(a + b =~= a);
    } else {
        law_total_tokens_additive(a, b.drop_last());
        assert((a + b).drop_last() =~= a + b.drop_last());
        assert((a + b).last() == b.last());
    }
}

/// Adding a message never lowers the overflow level.
pub proof fn law_overflow_monotone(ms: Seq<MessageView>, m: MessageView, max: nat)
    ensures
        level_rank(overflow_level(total_tokens(ms), max)) <= level_rank(
            overflow_level(total_tokens(ms.push(m)), max),
        ),
{
    assert(ms.push(m).drop_last() =~= ms);
    let a = total_tokens(ms);
    let b = total_tokens(ms.push(m));
    assert(a <= b);
    assert(100 * a <= 100 * b);
}


/// `m` with the tool calls `cs`.
pub open spec fn with_calls(m: MessageView, cs: Option<Seq<ToolCallView>>) -> MessageView {
    MessageView { tool_calls: cs, ..m }
}

/// Tool calls count toward a message's estimate: a message without calls (or
/// with an empty list) costs its text (at least one token) and four tokens of
/// framing; each call added costs the estimate of its name and of its
/// arguments (at least one token each) more, so it always raises the estimate.
pub proof fn law_tool_calls_are_counted(m: MessageView, cs: Seq<ToolCallView>, c: ToolCallView)
    ensures
        message_tokens(with_calls(m, None)) == text_tokens_min1(m.content) + 4,
        message_tokens(with_calls(m, Some(Seq::empty()))) == text_tokens_min1(m.content) + 4,
        message_tokens(with_calls(m, Some(cs.push(c)))) == message_tokens(with_calls(m, Some(cs)))
            + text_tokens_min1(c.name) + text_tokens_min1(c.arguments),
        message_tokens(with_calls(m, Some(cs.push(c)))) >= message_tokens(with_calls(m, Some(cs))) + 2,
        text_tokens_min1(c.arguments) >= text_tokens(c.arguments),
{
    assert(cs.push(c).drop_last() =~= cs);
}


/// A message that plays no part in tool traffic: no tool result, no tool
/// calls.
pub open spec fn quiet(m: MessageView) -> bool {
    m.role != Role::Tool && m.tool_calls is None
}

/// Every message of `ms` is quiet.
pub open spec fn all_quiet(ms: Seq<MessageView>) -> bool {
    forall|i: int| 0 <= i < ms.len() ==> quiet(#[trigger] ms[i])
}

proof fn lemma_sanitize_quiet(ms: Seq<MessageView>, k: int)
    requires
        all_quiet(ms),
        0 <= k <= ms.len(),
    ensures
        sanitize_upto(ms, k) == ms.take(k),
    decreases k,
{
    if k > 0 {
        lemma_sanitize_quiet(ms, k - 1);
        assert(quiet(ms[k - 1]));
        assert(sanitize_one(ms, ms[k - 1]) == Some(ms[k - 1]));
        assert(ms.take(k - 1) + seq![ms[k - 1]] =~= ms.take(k));
    }
}

proof fn lemma_parts_quiet(ms: Seq<MessageView>)
    requires
        all_quiet(ms),
    ensures
        all_quiet(system_msgs(ms)),
        all_quiet(non_system_msgs(ms)),
    decreases ms.len(),
{
    if ms.len() > 0 {
        let f = ms.drop_last();
        assert(all_quiet(f)) by {
            assert forall|i: int| 0 <= i < f.len() implies quiet(#[trigger] f[i]) by {
                assert(f[i] == ms[i]);
            }
        }
        lemma_parts_quiet(f);
        assert(quiet(ms[ms.len() - 1]));
    }
}

proof fn lemma_last_non_system(ms: Seq<MessageView>)
    requires
        ms.len() > 0,
        ms.last().role != Role::System,
    ensures
        non_system_msgs(ms).len() > 0,
        non_system_msgs(ms).last() == ms.last(),
{
}

/// Compaction keeps the newest messages: in a conversation without tool
/// traffic it gives exactly the system messages, the summary, and then the
/// last `keep` other messages (all of them when there are fewer), in order.
pub proof fn law_compact_keeps_the_newest(ms: Seq<MessageView>, keep: nat, summary: Seq<char>)
    requires
        all_quiet(ms),
    ensures
        ({
            let ns = non_system_msgs(ms);
            let k = if keep < ns.len() { keep } else { ns.len() };
            compact_spec(ms, keep, summary) == system_msgs(ms) + summary_block(summary) + ns.skip(ns.len() - k)
        }),
{
    let ns = non_system_msgs(ms);
    let all = system_msgs(ms) + summary_block(summary) + recent(ns, keep);
    lemma_parts_quiet(ms);
    assert(all_quiet(all)) by {
        assert forall|i: int| 0 <= i < all.len() implies quiet(#[trigger] all[i]) by {
            let a = system_msgs(ms).len() as int;
            let b = summary_block(summary).len() as int;
            if i < a {
                assert(all[i] == system_msgs(ms)[i]);
            } else if i < a + b {
                assert(all[i] == summary_block(summary)[i - a]);
            } else {
                let r = recent(ns, keep);
                assert(all[i] == r[i - a - b]);
                assert(r[i - a - b] == ns[ns.len() - kept_count(keep, ns.len()) + (i - a - b)]);
            }
        }
    }
    lemma_sanitize_quiet(all, all.len() as int);
    assert(all.take(all.len() as int) =~= all);
}

/// Compaction never loses the latest question: when the conversation ends
/// with a message of the user and at least one recent message is kept, the
/// compacted conversation ends with that message.
pub proof fn law_compact_ends_with_latest_question(ms: Seq<MessageView>, keep: nat, summary: Seq<char>)
    requires
        ms.len() > 0,
        ms.last().role == Role::User,
        keep >= 1,
    ensures
        compact_spec(ms, keep, summary).len() > 0,
        compact_spec(ms, keep, summary).last() == ms.last(),
{
    let ns = non_system_msgs(ms);
    lemma_last_non_system(ms);
    let r = recent(ns, keep);
    assert(r.len() >= 1);
    assert(r.last() == ns.last());
    let all = system_msgs(ms) + summary_block(summary) + r;
    assert(all.last() == ms.last());
    let n = all.len() as int;
    assert(sanitize_one(all, all[n - 1]) == Some(all[n - 1]));
    assert(sanitize(all) == sanitize_upto(all, n - 1) + seq![all[n - 1]]);
}

} // verus!
