//! User hooks: shell commands run at points of the agent's life, whose exit
//! status lets a call pass, warns, or blocks it. Running the commands is left
//! to the application; deciding on their results is done here.
use vstd::prelude::*;
use crate::text::{append_chars, decimal, decimal_exec, owned, push_str, string_of};

verus! {

/// When a hook runs.
#[derive(Debug, Clone, Copy, PartialEq, Eq, Hash, Structural)]
pub enum HookEvent {
    PreToolUse,
    PostToolUse,
    UserPromptSubmit,
    Stop,
    SessionStart,
    SessionEnd,
    SubagentStop,
    Notification,
    PreCompact,
}

/// A hook: the command run for an event, its time limit, and whether a
/// refusal from it blocks or only warns.
#[derive(Debug, Clone)]
pub struct HookConfig {
    pub event: HookEvent,
    pub command: String,
    pub timeout_ms: u64,
    pub blocking: bool,
}

impl Default for HookConfig {
    fn default() -> (r: Self)
        ensures
            r.event == HookEvent::PreToolUse,
            r.command@ == Seq::<char>::empty(),
            r.timeout_ms == 5000,
            !r.blocking,
    {
        HookConfig { event: HookEvent::PreToolUse, command: String::new(), timeout_ms: 5000, blocking: false }
    }
}

/// What hooks decided.
#[derive(Debug, Clone, PartialEq)]
pub enum HookResult {
    Pass,
    Block(String),
    Warn(String),
    Timeout,
    Error(String),
}

/// The value of a [`HookResult`].
pub ghost enum HookOutcome {
    Pass,
    Block(Seq<char>),
    Warn(Seq<char>),
    Timeout,
    Error(Seq<char>),
}

impl View for HookResult {
    type V = HookOutcome;

    open spec fn view(&self) -> HookOutcome {
        match self {
            HookResult::Pass => HookOutcome::Pass,
            HookResult::Block(m) => HookOutcome::Block(m@),
            HookResult::Warn(m) => HookOutcome::Warn(m@),
            HookResult::Timeout => HookOutcome::Timeout,
            HookResult::Error(m) => HookOutcome::Error(m@),
        }
    }
}

/// The outcome of the hooks whose results, with whether each blocks, are
/// `rs`, in order; `pending` is the reason of an earlier non-blocking refusal.
/// A blocking refusal, a time-out or an error decides at once (the later hooks
/// do not run); a non-blocking refusal becomes a warning unless something later
/// decides.
pub open spec fn combine(rs: Seq<(bool, HookOutcome)>, pending: Option<Seq<char>>) -> HookOutcome
    decreases rs.len(),
{
    if rs.len() == 0 {
        match pending {
            Some(r) => HookOutcome::Warn(r),
            None => HookOutcome::Pass,
        }
    } else {
        match rs[0].1 {
            HookOutcome::Pass => combine(rs.drop_first(), pending),
            HookOutcome::Block(reason) => {
                if rs[0].0 {
                    HookOutcome::Block(reason)
                } else {
                    combine(rs.drop_first(), Some(reason))
                }
            },
            other => other,
        }
    }
}

/// After one hook: either the outcome is decided, or the hooks go on with
/// the reason of a non-blocking refusal, if any.
#[derive(Debug, Clone, PartialEq)]
pub enum HookStep {
    Decided(HookResult),
    Continue(Option<String>),
}

/// The event, command, time limit and blocking of a hook.
pub open spec fn config_view(c: HookConfig) -> (HookEvent, Seq<char>, u64, bool) {
    (c.event, c.command@, c.timeout_ms, c.blocking)
}

/// The hooks registered, in order.
pub struct HookExecutor {
    hooks: Vec<HookConfig>,
}

impl View for HookExecutor {
    type V = Seq<(HookEvent, Seq<char>, u64, bool)>;

    closed spec fn view(&self) -> Seq<(HookEvent, Seq<char>, u64, bool)> {
        self.hooks@.map_values(|c: HookConfig| config_view(c))
    }
}

/// The hooks of `hs` for `event`, in order.
pub open spec fn hooks_of(hs: Seq<(HookEvent, Seq<char>, u64, bool)>, event: HookEvent) -> Seq<(HookEvent, Seq<char>, u64, bool)> {
    hs.filter(|h: (HookEvent, Seq<char>, u64, bool)| h.0 == event)
}

/// `i` in decimal, with a minus sign when negative.
pub open spec fn signed_decimal(i: int) -> Seq<char> {
    if i < 0 {
        "-"@ + decimal((-i) as nat)
    } else {
        decimal(i as nat)
    }
}

/// What a hook's exit says: status 0 passes; status 2 refuses, with the hook's
/// output as the reason (a default reason when it printed nothing); another
/// status warns; no status (killed by a signal) is an error.
pub open spec fn exit_outcome(code: Option<i32>, stdout: Seq<char>) -> HookOutcome {
    match code {
        Some(c) => {
            if c == 0 {
                HookOutcome::Pass
            } else if c == 2 {
                HookOutcome::Block(if stdout.len() == 0 { "blocked by hook"@ } else { stdout })
            } else {
                HookOutcome::Warn("exit "@ + signed_decimal(c as int) + ": "@ + stdout)
            }
        },
        None => HookOutcome::Error("Hook terminated by signal"@),
    }
}

impl Default for HookExecutor {
    fn default() -> (r: Self)
        ensures
            r@ == Seq::<(HookEvent, Seq<char>, u64, bool)>::empty(),
    {
        Self::new()
    }
}

impl HookExecutor {
    /// No hooks.
    pub fn new() -> (r: Self)
        ensures
            r@ == Seq::<(HookEvent, Seq<char>, u64, bool)>::empty(),
    {
        HookExecutor { hooks: Vec::new() }
    }

    /// Registers a hook after the others.
    pub fn add_hook(&mut self, config: HookConfig)
        ensures
            final(self)@ == old(self)@.push(config_view(config)),
    {
        let ghost before = self.hooks@;
        self.hooks.push(config);
        assert(self.hooks@.map_values(|c: HookConfig| config_view(c)) =~= before.map_values(
            |c: HookConfig| config_view(c),
        ).push(config_view(config)));
    }

    /// The hooks registered for `event`, in order.
    pub fn hooks_for(&self, event: &HookEvent) -> (r: Vec<HookConfig>)
        ensures
            r@.map_values(|c: HookConfig| config_view(c)) == hooks_of(self@, *event),
    {
        let ghost all = self@;
        let mut r: Vec<HookConfig> = Vec::new();
        let mut i: usize = 0;
        while i < self.hooks.len()
            invariant
                i <= self.hooks.len(),
                all == self@,
                all.len() == self.hooks.len(),
                r@.map_values(|c: HookConfig| config_view(c)) == hooks_of(all.take(i as int), *event),
            decreases self.hooks.len() - i,
        {
            let h = &self.hooks[i];
            assert(all.take(i + 1).drop_last() =~= all.take(i as int));
            assert(all.take(i + 1).last() == all[i as int]);
            reveal(Seq::filter);
            assert(hooks_of(all.take(i + 1), *event) == if all[i as int].0 == *event {
                hooks_of(all.take(i as int), *event).push(all[i as int])
            } else {
                hooks_of(all.take(i as int), *event)
            });
            assert(all[i as int] == config_view(*h));
            if h.event == *event {
                let c = HookConfig {
                    event: h.event,
                    command: owned(h.command.as_str()),
                    timeout_ms: h.timeout_ms,
                    blocking: h.blocking,
                };
                let ghost before = r@;
                r.push(c);
                assert(r@.map_values(|c: HookConfig| config_view(c)) =~= before.map_values(
                    |c: HookConfig| config_view(c),
                ).push(config_view(c)));
            }
            i += 1;
        }
        assert(all.take(self.hooks.len() as int) =~= all);
        r
    }

    /// Takes in the result of the next hook (`blocking` tells whether a refusal
    /// from it blocks), `pending` being the reason of an earlier non-blocking
    /// refusal.
    pub fn step(pending: Option<String>, blocking: bool, result: HookResult) -> (r: HookStep)
        ensures
            ({
                let p = match pending {
                    Some(s) => Some(s@),
                    None => None,
                };
                match result@ {
                    HookOutcome::Pass => r matches HookStep::Continue(q) && match q {
                        Some(s) => p == Some(s@),
                        None => p is None,
                    },
                    HookOutcome::Block(reason) => if blocking {
                        r matches HookStep::Decided(d) && d@ == HookOutcome::Block(reason)
                    } else {
                        r matches HookStep::Continue(q) && q matches Some(s) && s@ == reason
                    },
                    other => r matches HookStep::Decided(d) && d@ == other,
                }
            }),
    {
        match result {
            HookResult::Pass => HookStep::Continue(pending),
            HookResult::Block(reason) => {
                if blocking {
                    HookStep::Decided(HookResult::Block(reason))
                } else {
                    HookStep::Continue(Some(reason))
                }
            },
            other => HookStep::Decided(other),
        }
    }

    /// The outcome once every hook has passed or warned.
    pub fn finish(pending: Option<String>) -> (r: HookResult)
        ensures
            match pending {
                Some(s) => r@ == HookOutcome::Warn(s@),
                None => r@ == HookOutcome::Pass,
            },
    {
        match pending {
            Some(reason) => HookResult::Warn(reason),
            None => HookResult::Pass,
        }
    }

    /// What a hook's exit status and output say.
    pub fn classify_exit(code: Option<i32>, stdout: &str) -> (r: HookResult)
        ensures
            r@ == exit_outcome(code, stdout@),
    {
        match code {
            Some(c) => {
                if c == 0 {
                    HookResult::Pass
                } else if c == 2 {
                    if stdout.is_empty() {
                        HookResult::Block(owned("blocked by hook"))
                    } else {
                        HookResult::Block(owned(stdout))
                    }
                } else {
                    let mut m: Vec<char> = Vec::new();
                    m.push('e');
                    m.push('x');
                    m.push('i');
                    m.push('t');
                    m.push(' ');
                    if c < 0 {
                        m.push('-');
                        let d = decimal_exec((-(c as i64)) as u64);
                        append_chars(&mut m, d.as_slice());
                    } else {
                        let d = decimal_exec(c as u64);
                        append_chars(&mut m, d.as_slice());
                    }
                    m.push(':');
                    m.push(' ');
                    let mut s = string_of(m.as_slice());
                    push_str(&mut s, stdout);
                    proof {
                        reveal_strlit("exit ");
                        reveal_strlit(": ");
                        reveal_strlit("-");
                    }
                    assert(s@ =~= "exit "@ + signed_decimal(c as int) + ": "@ + stdout@);
                    HookResult::Warn(s)
                }
            },
            None => HookResult::Error(owned("Hook terminated by signal")),
        }
    }
}

/// Taking in results one by one with [`HookExecutor::step`], and ending with
/// [`HookExecutor::finish`] when no step decided, gives the combined outcome.
pub proof fn law_step_then_combine(
    pending: Option<Seq<char>>,
    blocking: bool,
    result: HookOutcome,
    rest: Seq<(bool, HookOutcome)>,
)
    ensures
        combine(seq![(blocking, result)] + rest, pending) == match result {
            HookOutcome::Pass => combine(rest, pending),
            HookOutcome::Block(reason) => if blocking {
                HookOutcome::Block(reason)
            } else {
                combine(rest, Some(reason))
            },
            other => other,
        },
{
    assert((seq![(blocking, result)] + rest).drop_first() =~= rest);
}

/// Hooks that all pass let the call pass; one blocking refusal blocks it,
/// whatever came before it that only warned.
pub proof fn law_all_pass_passes(n: nat, blocking: Seq<bool>)
    requires
        blocking.len() == n,
    ensures
        combine(blocking.map_values(|b: bool| (b, HookOutcome::Pass)), None) == HookOutcome::Pass,
    decreases n,
{
    if n > 0 {
        let rs = blocking.map_values(|b: bool| (b, HookOutcome::Pass));
        law_all_pass_passes((n - 1) as nat, blocking.drop_first());
        assert(rs.drop_first() =~= blocking.drop_first().map_values(|b: bool| (b, HookOutcome::Pass)));
    }
}

/// Registering a hook changes only what runs for its own event: the hooks
/// that [`HookExecutor::hooks_for`] gives for that event are those before,
/// then the new one; for any other event they are as before.
pub proof fn law_add_hook_appends(
    hs: Seq<(HookEvent, Seq<char>, u64, bool)>,
    h: (HookEvent, Seq<char>, u64, bool),
    event: HookEvent,
)
    ensures
        hooks_of(hs.push(h), h.0) == hooks_of(hs, h.0).push(h),
        event != h.0 ==> hooks_of(hs.push(h), event) == hooks_of(hs, event),
{
    reveal(Seq::filter);
    assert(hs.push(h).drop_last() =~= hs);
    assert(hs.push(h).last() == h);
}

} // verus!
