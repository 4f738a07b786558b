//! Decisions of the agent loop: bounding tool output, detecting a model that
//! repeats the same tool call, forced compaction, and the bookkeeping around
//! memories. The loop itself, which awaits the model and runs the tools,
//! drives these functions.
use vstd::prelude::*;
use vstd::string::StringSliceAdditionalSpecFns;
use crate::json::{json_str_field, json_string_field};
use crate::message::{calls_view, msgs_view, Message, MessageView, Role, ToolCall, ToolCallView};
use crate::permissions::{verdict, PermissionManager, PermissionResult, PermissionView, Verdict};
use crate::text::{
    append_chars, append_str, chars_of, contains, decimal, decimal_exec, fit_count, join,
    join_exec, lemma_fit_count, lemma_str_len, lowercase, owned, starts_with, str_contains,
    str_eq, str_starts_with, string_of, take_chars, take_chars_exec, to_lowercase, utf8_len,
    utf8_width, utf8_width_exec, views, lemma_views_push,
};

verus! {

/// Why the agent loop ended.
#[derive(Debug, Clone, PartialEq)]
pub enum FinishReason {
    /// The model answered with text.
    Stop,
    /// The model asked for tools.
    ToolCalls,
    /// The loop reached its step limit.
    MaxSteps,
    /// The context window overflowed.
    ContextOverflow,
    /// The same tool call came too many times in a row.
    DoomLoop,
    /// Anything else.
    Error(String),
}

/// Where the agent loop stands.
#[derive(Debug, Clone, PartialEq)]
pub enum LoopState {
    Idle,
    Running,
    /// Waiting for tool results.
    WaitingTool,
    Completed,
    /// Failed, with the error.
    Failed(String),
}

/// Largest tool output kept in the conversation, in bytes.
pub const MAX_TOOL_OUTPUT_BYTES: usize = 16384;

/// Tool output of one turn above which the context is compacted, in bytes.
pub const MAX_TURN_TOOL_OUTPUT_BYTES: usize = 204800;

/// How many identical consecutive tool calls stop the loop.
pub const DOOM_LOOP_LIMIT: usize = 3;

// ───────────────────────────── tool output ─────────────────────────────

/// The tool output `s` cut to its longest prefix of at most `max` UTF-8 bytes,
/// followed by a note of the original size; unchanged when it fits.
pub open spec fn truncated_output(s: Seq<char>, max: nat) -> Seq<char> {
    if utf8_len(s) <= max {
        s
    } else {
        s.take(fit_count(s, max) as int) + "\n[...truncated from "@ + decimal(utf8_len(s))
            + " bytes]"@
    }
}

/// Cuts a tool output to at most `max_bytes` bytes, at a character boundary,
/// and notes how long it was.
pub fn truncate_tool_output(s: &str, max_bytes: usize) -> (r: String)
    ensures
        r@ == truncated_output(s@, max_bytes as nat),
{
    let bytes = s.as_bytes();
    let total = bytes.len();
    proof {
        lemma_str_len(s);
    }
    if total <= max_bytes {
        return owned(s);
    }
    let cs = chars_of(s);
    let mut used: usize = 0;
    let mut k: usize = 0;
    proof {
        assert(cs@.skip(0) =~= cs@);
        assert(cs@.take(0) =~= Seq::<char>::empty());
    }
    while k < cs.len()
        invariant_except_break
            k <= cs.len(),
            used <= max_bytes,
            fit_count(cs@, max_bytes as nat) == k + fit_count(
                cs@.skip(k as int),
                (max_bytes - used) as nat,
            ),
        ensures
            k <= cs.len(),
            fit_count(cs@, max_bytes as nat) == k,
        decreases cs.len() - k,
    {
        let w = utf8_width_exec(cs[k]);
        let ghost rest = cs@.skip(k as int);
        assert(rest[0] == cs@[k as int]);
        if w > max_bytes - used {
            assert(fit_count(rest, (max_bytes - used) as nat) == 0);
            break;
        }
        if k + 1 == cs.len() {
            assert(cs@.skip(k + 1) =~= Seq::<char>::empty());
        }
        assert(rest.drop_first() =~= cs@.skip(k + 1));
        used = used + w;
        k += 1;
    }
    let mut out = crate::text::slice_vec(cs.as_slice(), 0, k);
    append_str(&mut out, "\n[...truncated from ");
    let n = decimal_exec(total as u64);
    append_chars(&mut out, n.as_slice());
    append_str(&mut out, " bytes]");
    proof {
        assert(cs@.subrange(0, k as int) =~= cs@.take(k as int));
    }
    string_of(out.as_slice())
}

/// A cut output never exceeds the limit by more than its note, and is unchanged
/// when it fits.
pub proof fn law_truncated_output_fits(s: Seq<char>, max: nat)
    ensures
        utf8_len(s) <= max ==> truncated_output(s, max) == s,
        utf8_len(s) > max ==> {
            let k = fit_count(s, max);
            &&& truncated_output(s, max).take(k as int) == s.take(k as int)
            &&& utf8_len(s.take(k as int)) <= max
            &&& (k < s.len() ==> utf8_len(s.take(k + 1int)) > max)
        },
{
    lemma_fit_count(s, max);
    if utf8_len(s) > max {
        let k = fit_count(s, max);
        let t = truncated_output(s, max);
        assert(t.take(k as int) =~= s.take(k as int));
    }
}

// ───────────────────────────── turn state ─────────────────────────────

/// What the loop remembers within one user turn.
pub struct TurnState {
    /// `name:arguments_hash` of the last tool call.
    pub last_call_signature: Option<String>,
    /// How many times in a row that signature came.
    pub consecutive_same_tool: usize,
    /// Bytes of tool output added to the conversation in this turn.
    pub turn_tool_bytes: usize,
}

/// The value of a [`TurnState`].
pub ghost struct TurnView {
    pub last: Option<Seq<char>>,
    pub consecutive: nat,
    pub bytes: nat,
}

impl View for TurnState {
    type V = TurnView;

    open spec fn view(&self) -> TurnView {
        TurnView {
            last: match self.last_call_signature {
                Some(s) => Some(s@),
                None => None,
            },
            consecutive: self.consecutive_same_tool as nat,
            bytes: self.turn_tool_bytes as nat,
        }
    }
}

/// The signature of a tool call: its name and the hash of its arguments.
pub open spec fn call_signature(name: Seq<char>, arguments_hash: Seq<char>) -> Seq<char> {
    name + ":"@ + arguments_hash
}

/// The state after one more tool result of `output_len` bytes with signature `sig`.
pub open spec fn record_step(t: TurnView, sig: Seq<char>, output_len: nat) -> TurnView {
    TurnView {
        last: Some(sig),
        consecutive: if t.last == Some(sig) {
            t.consecutive + 1
        } else {
            1
        },
        bytes: t.bytes + output_len,
    }
}

/// The loop stops for a doom loop once the same call came `DOOM_LOOP_LIMIT` times in a row.
pub open spec fn is_doom(t: TurnView) -> bool {
    t.consecutive >= DOOM_LOOP_LIMIT
}

impl TurnState {
    /// The state at the start of a turn.
    pub fn new() -> (r: TurnState)
        ensures
            r@ == (TurnView { last: None, consecutive: 0, bytes: 0 }),
    {
        TurnState { last_call_signature: None, consecutive_same_tool: 0, turn_tool_bytes: 0 }
    }

    /// Whether the tool output of this turn is large enough to force a compaction.
    pub fn needs_forced_compaction(&self) -> (b: bool)
        ensures
            b == (self.turn_tool_bytes > MAX_TURN_TOOL_OUTPUT_BYTES),
    {
        self.turn_tool_bytes > MAX_TURN_TOOL_OUTPUT_BYTES
    }

    /// Forgets the byte count after a compaction.
    pub fn reset_bytes(&mut self)
        ensures
            final(self)@ == (TurnView { bytes: 0, ..old(self)@ }),
    {
        self.turn_tool_bytes = 0;
    }

    /// Records one tool result and says whether the model is caught in a loop
    /// of identical calls.
    pub fn record(&mut self, name: &str, arguments_hash: &str, output_len: usize) -> (doom: bool)
        requires
            old(self).turn_tool_bytes + output_len <= usize::MAX,
            old(self).consecutive_same_tool < usize::MAX,
        ensures
            final(self)@ == record_step(
                old(self)@,
                call_signature(name@, arguments_hash@),
                output_len as nat,
            ),
            doom == is_doom(final(self)@),
    {
        let mut sig = owned(name);
        crate::text::push_str(&mut sig, ":");
        crate::text::push_str(&mut sig, arguments_hash);
        let same = match &self.last_call_signature {
            Some(last) => str_eq(last.as_str(), sig.as_str()),
            None => false,
        };
        if same {
            self.consecutive_same_tool = self.consecutive_same_tool + 1;
        } else {
            self.consecutive_same_tool = 1;
        }
        self.last_call_signature = Some(sig);
        self.turn_tool_bytes = self.turn_tool_bytes + output_len;
        self.consecutive_same_tool >= DOOM_LOOP_LIMIT
    }
}

/// What the agent loop learns as it goes.
#[derive(Debug, Clone, Copy, PartialEq, Eq)]
pub enum LoopEvent {
    /// Iteration `iteration` (counted from 0) of at most `max_iterations` is
    /// about to start.
    Iterate { iteration: u32, max_iterations: u32 },
    /// The conversation was measured: whether it needs compaction.
    Measured { needs_compaction: bool },
    /// The conversation was measured again: whether it overflows the window.
    Checked { critical: bool },
    /// The model's answer ended, with this many tool calls.
    Answered { tool_calls: usize },
    /// A tool's result was recorded; whether it completed a doom loop.
    Recorded { doom: bool },
}

/// What the agent loop does next.
#[derive(Debug, Clone, Copy, PartialEq, Eq)]
pub enum LoopAction {
    /// Compact the conversation because the turn's tool output grew too
    /// large, forget the byte count, then measure the conversation.
    ForceCompact,
    /// Measure the conversation.
    Measure,
    /// Compact the conversation, forget the byte count, then check it.
    Compact,
    /// Check whether the conversation overflows the window.
    Check,
    /// Report the overflow and end the turn.
    Overflow,
    /// Ask the model.
    CallModel,
    /// End the turn: the answer needs no tool, or the iterations are used up.
    Finish,
    /// Run the tools that were asked for.
    RunTools,
    /// Take in the next tool result.
    NextResult,
    /// Report the doom loop, answer the calls that were skipped, and end the
    /// turn.
    StopDoomLoop,
}

/// The agent loop's decision in state `t` on event `ev`. An iteration starts
/// unless the iterations are used up; too much tool output forces a
/// compaction first; a conversation that needs it is compacted; one that
/// still overflows ends the turn; an answer without tool calls ends it; a
/// doom loop ends it.
pub open spec fn loop_decision(t: TurnView, ev: LoopEvent) -> LoopAction {
    match ev {
        LoopEvent::Iterate { iteration, max_iterations } => {
            if iteration >= max_iterations {
                LoopAction::Finish
            } else if t.bytes > MAX_TURN_TOOL_OUTPUT_BYTES {
                LoopAction::ForceCompact
            } else {
                LoopAction::Measure
            }
        },
        LoopEvent::Measured { needs_compaction } => if needs_compaction { LoopAction::Compact } else { LoopAction::Check },
        LoopEvent::Checked { critical } => if critical { LoopAction::Overflow } else { LoopAction::CallModel },
        LoopEvent::Answered { tool_calls } => if tool_calls == 0 { LoopAction::Finish } else { LoopAction::RunTools },
        LoopEvent::Recorded { doom } => if doom { LoopAction::StopDoomLoop } else { LoopAction::NextResult },
    }
}

impl TurnState {
    /// What the agent loop does next on `ev`.
    pub fn next_action(&self, ev: LoopEvent) -> (r: LoopAction)
        ensures
            r == loop_decision(self@, ev),
    {
        match ev {
            LoopEvent::Iterate { iteration, max_iterations } => {
                if iteration >= max_iterations {
                    LoopAction::Finish
                } else if self.needs_forced_compaction() {
                    LoopAction::ForceCompact
                } else {
                    LoopAction::Measure
                }
            },
            LoopEvent::Measured { needs_compaction } => {
                if needs_compaction {
                    LoopAction::Compact
                } else {
                    LoopAction::Check
                }
            },
            LoopEvent::Checked { critical } => {
                if critical {
                    LoopAction::Overflow
                } else {
                    LoopAction::CallModel
                }
            },
            LoopEvent::Answered { tool_calls } => {
                if tool_calls == 0 {
                    LoopAction::Finish
                } else {
                    LoopAction::RunTools
                }
            },
            LoopEvent::Recorded { doom } => {
                if doom {
                    LoopAction::StopDoomLoop
                } else {
                    LoopAction::NextResult
                }
            },
        }
    }
}

/// Three identical tool calls in a row stop the loop, whatever came before.
pub proof fn law_three_identical_calls_stop(t: TurnView, sig: Seq<char>, a: nat, b: nat, c: nat)
    ensures
        is_doom(record_step(record_step(record_step(t, sig, a), sig, b), sig, c)),
{
}

/// A call that differs from the previous one never stops the loop.
pub proof fn law_new_call_resets(t: TurnView, sig: Seq<char>, n: nat)
    requires
        t.last != Some(sig),
    ensures
        record_step(t, sig, n).consecutive == 1,
        !is_doom(record_step(t, sig, n)),
{
}

/// The message sent when a doom loop stops the turn.
pub fn doom_loop_message(name: &str) -> (r: String)
    ensures
        r@ == "Doom loop detected: tool "@ + name@ + " called 3 times consecutively"@,
{
    let mut r = owned("Doom loop detected: tool ");
    crate::text::push_str(&mut r, name);
    crate::text::push_str(&mut r, " called 3 times consecutively");
    r
}

// ───────────────────────────── skipped calls ─────────────────────────────

/// Index of the first call with id `id`.
pub open spec fn first_call_with_id(calls: Seq<ToolCallView>, id: Seq<char>, i: int) -> Option<int>
    decreases calls.len() - i,
{
    if i < 0 || i >= calls.len() {
        None
    } else if calls[i].id == id {
        Some(i)
    } else {
        first_call_with_id(calls, id, i + 1)
    }
}

/// The ids of the calls after the first one with id `last_id` (none when there is no such call).
pub open spec fn skipped_ids(calls: Seq<ToolCallView>, last_id: Seq<char>) -> Seq<Seq<char>> {
    match first_call_with_id(calls, last_id, 0) {
        Some(i) => Seq::new((calls.len() - i - 1) as nat, |j: int| calls[i + 1 + j].id),
        None => Seq::empty(),
    }
}

/// The ids of the calls that a doom loop left unexecuted: those after the call
/// `last_id` that triggered it.
pub fn skipped_call_ids(calls: &Vec<ToolCall>, last_id: &str) -> (r: Vec<Vec<char>>)
    ensures
        views(r@) == skipped_ids(calls_view(calls@), last_id@),
{
    let ghost cv = calls_view(calls@);
    let mut i: usize = 0;
    while i < calls.len()
        invariant
            i <= calls.len(),
            cv == calls_view(calls@),
            first_call_with_id(cv, last_id@, 0) == first_call_with_id(cv, last_id@, i as int),
        decreases calls.len() - i,
    {
        assert(cv[i as int] == calls@[i as int]@);
        if str_eq(calls[i].id.as_str(), last_id) {
            let mut r: Vec<Vec<char>> = Vec::new();
            let mut j: usize = i + 1;
            while j < calls.len()
                invariant
                    i < j <= calls.len(),
                    cv == calls_view(calls@),
                    first_call_with_id(cv, last_id@, 0) == Some(i as int),
                    views(r@) == Seq::new((j - i - 1) as nat, |q: int| cv[i + 1 + q].id),
                decreases calls.len() - j,
            {
                let idv = chars_of(calls[j].id.as_str());
                let ghost old_r = r@;
                r.push(idv);
                assert(cv[j as int] == calls@[j as int]@);
                proof {
                    lemma_views_push(old_r, idv);
                }
                assert(views(r@) =~= Seq::new((j + 1 - i - 1) as nat, |q: int| cv[i + 1 + q].id));
                j += 1;
            }
            return r;
        }
        i += 1;
    }
    let r: Vec<Vec<char>> = Vec::new();
    assert(views(r@) =~= skipped_ids(cv, last_id@));
    r
}

/// The result recorded for a call that a doom loop left unexecuted.
pub fn skipped_result(tool_call_id: &str) -> (r: Message)
    ensures
        r@ == (MessageView {
            role: Role::Tool,
            content: "Tool execution skipped due to doom loop detection"@,
            tool_calls: None,
            tool_call_id: Some(tool_call_id@),
        }),
{
    Message::tool_result(tool_call_id, "Tool execution skipped due to doom loop detection")
}

// ───────────────────────────── file snapshots ─────────────────────────────

/// The tools whose target file is snapshotted before they run.
pub open spec fn writes_file(name: Seq<char>) -> bool {
    name == "file_write"@ || name == "file_edit"@
}

/// The file that a call will change, when it is a write or an edit with a
/// string `path` argument.
pub open spec fn snapshot_target(c: ToolCallView) -> Option<Seq<char>> {
    if writes_file(c.name) {
        json_string_field(c.arguments, "path"@)
    } else {
        None
    }
}

/// The file to snapshot before running `call`, if any.
pub fn snapshot_path(call: &ToolCall) -> (r: Option<String>)
    ensures
        match r {
            Some(p) => snapshot_target(call@) == Some(p@),
            None => snapshot_target(call@) is None,
        },
{
    if str_eq(call.name.as_str(), "file_write") || str_eq(call.name.as_str(), "file_edit") {
        json_str_field(call.arguments.as_str(), "path")
    } else {
        None
    }
}

// ───────────────────────────── memories ─────────────────────────────

/// The words that make a response worth remembering.
pub open spec fn memory_keywords() -> Seq<Seq<char>> {
    seq!["remember"@, "important"@, "note:"@, "todo:"@, "fix:"@, "bug:"@]
}

/// The text of a response to store as a memory: its first 500 characters,
/// when its lower-case form contains one of the memory keywords.
pub open spec fn memory_to_store_spec(response: Seq<char>) -> Option<Seq<char>> {
    if exists|i: int|
        0 <= i < memory_keywords().len() && contains(
            lowercase(response),
            #[trigger] memory_keywords()[i],
        ) {
        Some(take_chars(response, 500))
    } else {
        None
    }
}

/// What of a response to store as a memory, if anything.
pub fn memory_to_store(response: &str) -> (r: Option<String>)
    ensures
        match r {
            Some(m) => memory_to_store_spec(response@) == Some(m@),
            None => memory_to_store_spec(response@) is None,
        },
{
    let lower = to_lowercase(response);
    let l = lower.as_str();
    let ghost low = lowercase(response@);
    let ghost kv = memory_keywords();
    let found = str_contains(l, "remember") || str_contains(l, "important") || str_contains(
        l,
        "note:",
    ) || str_contains(l, "todo:") || str_contains(l, "fix:") || str_contains(l, "bug:");
    proof {
        if found {
            if contains(low, kv[0]) {
            } else if contains(low, kv[1]) {
            } else if contains(low, kv[2]) {
            } else if contains(low, kv[3]) {
            } else if contains(low, kv[4]) {
            } else {
                assert(contains(low, kv[5]));
            }
        } else {
            assert forall|q: int| 0 <= q < kv.len() implies !contains(low, #[trigger] kv[q]) by {
                assert(q == 0 || q == 1 || q == 2 || q == 3 || q == 4 || q == 5);
            }
        }
    }
    if found {
        let cs = chars_of(response);
        let t = take_chars_exec(cs.as_slice(), 500);
        Some(string_of(t.as_slice()))
    } else {
        None
    }
}

/// The prefix of the system message that carries recalled memories.
pub open spec fn memories_prefix() -> Seq<char> {
    "Relevant memories:\n"@
}

/// `m` is a message of recalled memories.
pub open spec fn is_memory_message(m: MessageView) -> bool {
    m.role == Role::System && starts_with(m.content, memories_prefix())
}

/// The messages of `ms` that are not messages of recalled memories.
pub open spec fn without_memories(ms: Seq<MessageView>) -> Seq<MessageView>
    decreases ms.len(),
{
    if ms.len() == 0 {
        Seq::empty()
    } else if is_memory_message(ms.last()) {
        without_memories(ms.drop_last())
    } else {
        without_memories(ms.drop_last()).push(ms.last())
    }
}

/// Removes earlier messages of recalled memories.
pub fn remove_memory_messages(messages: &Vec<Message>) -> (r: Vec<Message>)
    ensures
        msgs_view(r@) == without_memories(msgs_view(messages@)),
{
    let ghost mv = msgs_view(messages@);
    let mut r: Vec<Message> = Vec::new();
    let mut i: usize = 0;
    while i < messages.len()
        invariant
            i <= messages.len(),
            mv == msgs_view(messages@),
            msgs_view(r@) == without_memories(mv.take(i as int)),
        decreases messages.len() - i,
    {
        proof {
            assert(mv.take(i + 1).drop_last() =~= mv.take(i as int));
            assert(mv.take(i + 1).last() == messages@[i as int]@);
        }
        let m = &messages[i];
        let is_mem = m.role == Role::System && str_starts_with(
            m.content.as_str(),
            "Relevant memories:\n",
        );
        if !is_mem {
            let c = m.copy();
            let ghost old_r = r@;
            r.push(c);
            assert(msgs_view(old_r).len() == old_r.len());
            assert(msgs_view(r@) =~= msgs_view(old_r).push(c@));
        }
        i += 1;
    }
    assert(mv.take(messages.len() as int) =~= mv);
    r
}

/// The bullet lines of recalled memories.
pub open spec fn memory_bullets(contents: Seq<Seq<char>>) -> Seq<Seq<char>> {
    Seq::new(contents.len(), |i: int| "- "@ + contents[i])
}

/// The system message that carries recalled memories, when there are any.
pub open spec fn memory_context_spec(contents: Seq<Seq<char>>) -> Option<Seq<char>> {
    if contents.len() == 0 {
        None
    } else {
        Some(memories_prefix() + join(memory_bullets(contents), "\n"@))
    }
}

/// The text of the system message that carries the recalled memories `contents`.
pub fn memory_context(contents: &Vec<String>) -> (r: Option<String>)
    ensures
        match r {
            Some(t) => memory_context_spec(contents@.map_values(|c: String| c@)) == Some(t@),
            None => memory_context_spec(contents@.map_values(|c: String| c@)) is None,
        },
{
    let ghost cv = contents@.map_values(|c: String| c@);
    if contents.len() == 0 {
        return None;
    }
    let mut bullets: Vec<Vec<char>> = Vec::new();
    let mut i: usize = 0;
    while i < contents.len()
        invariant
            i <= contents.len(),
            cv == contents@.map_values(|c: String| c@),
            views(bullets@) == memory_bullets(cv).take(i as int),
        decreases contents.len() - i,
    {
        let mut b: Vec<char> = Vec::new();
        append_str(&mut b, "- ");
        append_str(&mut b, contents[i].as_str());
        let ghost old_b = bullets@;
        bullets.push(b);
        assert(views(old_b).len() == old_b.len());
        assert(cv[i as int] == contents@[i as int]@);
        assert(views(bullets@) =~= memory_bullets(cv).take(i + 1));
        i += 1;
    }
    assert(memory_bullets(cv).take(contents.len() as int) =~= memory_bullets(cv));
    let sep = chars_of("\n");
    let joined = join_exec(&bullets, sep.as_slice());
    let mut text: Vec<char> = Vec::new();
    append_str(&mut text, "Relevant memories:\n");
    append_chars(&mut text, joined.as_slice());
    Some(string_of(text.as_slice()))
}

// ───────────────────────────── one turn of the model ─────────────────────────────

/// The message that records what the model answered in a step: its text alone
/// when it asked for no tool (nothing when it said nothing); else its tool
/// calls, with its text when there is any.
pub open spec fn answer_message(text: Seq<char>, calls: Seq<ToolCallView>) -> Option<MessageView> {
    if calls.len() == 0 {
        if text.len() > 0 {
            Some(MessageView { role: Role::Assistant, content: text, tool_calls: None, tool_call_id: None })
        } else {
            None
        }
    } else {
        Some(MessageView { role: Role::Assistant, content: text, tool_calls: Some(calls), tool_call_id: None })
    }
}

/// The message recording a step's answer.
pub fn answer_to_message(text: &str, calls: Vec<ToolCall>) -> (r: Option<Message>)
    ensures
        match r {
            Some(m) => answer_message(text@, calls_view(calls@)) == Some(m@),
            None => answer_message(text@, calls_view(calls@)) is None,
        },
{
    if calls.len() == 0 {
        if text.is_empty() {
            None
        } else {
            Some(Message::assistant(text))
        }
    } else if text.is_empty() {
        let m = Message::assistant_with_tool_calls(calls);
        assert(m@.content == text@);
        Some(m)
    } else {
        Some(Message::assistant_with_content_and_tool_calls(text, calls))
    }
}

/// The calls that run: those the permissions do not refuse (a call that
/// needs approval runs, the loop approving it).
pub open spec fn approved_calls(p: PermissionView, calls: Seq<ToolCallView>) -> Seq<ToolCallView>
    decreases calls.len(),
{
    if calls.len() == 0 {
        Seq::empty()
    } else {
        let prev = approved_calls(p, calls.drop_last());
        let c = calls.last();
        if verdict(p, c.name, c.arguments) is Denied {
            prev
        } else {
            prev.push(c)
        }
    }
}

/// The results recorded for the refused calls: the reason of each refusal.
pub open spec fn denial_results(p: PermissionView, calls: Seq<ToolCallView>) -> Seq<MessageView>
    decreases calls.len(),
{
    if calls.len() == 0 {
        Seq::empty()
    } else {
        let prev = denial_results(p, calls.drop_last());
        let c = calls.last();
        match verdict(p, c.name, c.arguments) {
            Verdict::Denied(reason) => prev.push(MessageView {
                role: Role::Tool,
                content: "Permission denied: "@ + reason,
                tool_calls: None,
                tool_call_id: Some(c.id),
            }),
            _ => prev,
        }
    }
}

/// Sorts the calls of a step by the permissions: the calls that run, and the
/// results recorded for those refused.
pub fn triage_calls(pm: &PermissionManager, calls: &Vec<ToolCall>) -> (r: (Vec<ToolCall>, Vec<Message>))
    ensures
        calls_view(r.0@) == approved_calls(pm@, calls_view(calls@)),
        msgs_view(r.1@) == denial_results(pm@, calls_view(calls@)),
{
    let ghost cv = calls_view(calls@);
    let mut approved: Vec<ToolCall> = Vec::new();
    let mut denied: Vec<Message> = Vec::new();
    let mut i: usize = 0;
    while i < calls.len()
        invariant
            i <= calls.len(),
            cv == calls_view(calls@),
            calls_view(approved@) == approved_calls(pm@, cv.take(i as int)),
            msgs_view(denied@) == denial_results(pm@, cv.take(i as int)),
        decreases calls.len() - i,
    {
        let c = &calls[i];
        assert(cv.take(i + 1).drop_last() =~= cv.take(i as int));
        assert(cv.take(i + 1).last() == c@);
        match pm.check(c.name.as_str(), c.arguments.as_str()) {
            PermissionResult::Denied(reason) => {
                let mut content = owned("Permission denied: ");
                crate::text::push_str(&mut content, reason.as_str());
                let m = Message::tool_result(c.id.as_str(), content.as_str());
                let ghost before = denied@;
                denied.push(m);
                assert(msgs_view(denied@) =~= msgs_view(before).push(m@));
            },
            _ => {
                let k = c.copy();
                let ghost before = approved@;
                approved.push(k);
                assert(calls_view(approved@) =~= calls_view(before).push(k@));
            },
        }
        i += 1;
    }
    assert(cv.take(calls.len() as int) =~= cv);
    (approved, denied)
}

/// A refused call never runs, and every refused call gets a result.
pub proof fn law_refused_calls_never_run(p: PermissionView, calls: Seq<ToolCallView>)
    ensures
        forall|k: int| 0 <= k < approved_calls(p, calls).len() ==> !(verdict(
            p,
            (#[trigger] approved_calls(p, calls)[k]).name,
            approved_calls(p, calls)[k].arguments,
        ) is Denied),
        approved_calls(p, calls).len() + denial_results(p, calls).len() == calls.len(),
    decreases calls.len(),
{
    if calls.len() > 0 {
        law_refused_calls_never_run(p, calls.drop_last());
    }
}

} // verus!
