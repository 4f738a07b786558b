//! Which tool calls run at once, which need the user's approval, and which are
//! refused, by permission mode.
use vstd::prelude::*;
use crate::json::{json_compact, json_compact_text, json_str_field, json_string_field};
use crate::text::{all_ascii, ascii_lower_char, contains, lowercase, owned, push_str, str_contains, str_eq, to_lowercase};

verus! {

/// How much the agent may do without asking.
#[derive(Debug, Clone, PartialEq, Eq, Structural)]
pub enum PermissionMode {
    /// Read-only: every other tool is refused.
    Plan,
    /// The rules decide; what they do not allow needs approval.
    Default,
    /// As `Default`, but read-only tools always run.
    Auto,
    /// Everything runs.
    Yolo,
}

/// The mode named by `s`, whatever its case; `Default` for any other name.
pub open spec fn mode_named(lower: Seq<char>) -> PermissionMode {
    if lower == "plan"@ {
        PermissionMode::Plan
    } else if lower == "default"@ {
        PermissionMode::Default
    } else if lower == "auto"@ {
        PermissionMode::Auto
    } else if lower == "yolo"@ {
        PermissionMode::Yolo
    } else {
        PermissionMode::Default
    }
}

impl PermissionMode {
    /// Reads a mode from its name, in any case; an unknown name gives `Default`.
    pub fn from_str(s: &str) -> (r: Self)
        ensures
            r == mode_named(lowercase(s@)),
            all_ascii(s@) ==> r == mode_named(s@.map_values(|c: char| ascii_lower_char(c))),
    {
        let lower = to_lowercase(s);
        let l = lower.as_str();
        if str_eq(l, "plan") {
            PermissionMode::Plan
        } else if str_eq(l, "default") {
            PermissionMode::Default
        } else if str_eq(l, "auto") {
            PermissionMode::Auto
        } else if str_eq(l, "yolo") {
            PermissionMode::Yolo
        } else {
            PermissionMode::Default
        }
    }
}

/// What a rule says of a tool.
#[derive(Debug, Clone, Copy, PartialEq, Eq, Structural)]
pub enum PermissionAction {
    Allow,
    Deny,
    Ask,
}

/// The answer to a tool call.
#[derive(Debug, Clone)]
pub enum PermissionResult {
    Allowed,
    Denied(String),
    NeedsApproval(String),
}

/// The value of a [`PermissionResult`].
pub ghost enum Verdict {
    Allowed,
    Denied(Seq<char>),
    NeedsApproval(Seq<char>),
}

impl View for PermissionResult {
    type V = Verdict;

    open spec fn view(&self) -> Verdict {
        match self {
            PermissionResult::Allowed => Verdict::Allowed,
            PermissionResult::Denied(m) => Verdict::Denied(m@),
            PermissionResult::NeedsApproval(m) => Verdict::NeedsApproval(m@),
        }
    }
}

/// Decides on tool calls by mode and by a rule for each tool.
pub struct PermissionManager {
    mode: PermissionMode,
    rules: Vec<(String, PermissionAction)>,
}

/// The value of a [`PermissionManager`]: its mode and its rules, in order.
pub ghost struct PermissionView {
    pub mode: PermissionMode,
    pub rules: Seq<(Seq<char>, PermissionAction)>,
}

/// The rules by tool name, in order.
pub open spec fn rules_view(v: Seq<(String, PermissionAction)>) -> Seq<(Seq<char>, PermissionAction)> {
    v.map_values(|r: (String, PermissionAction)| (r.0@, r.1))
}

impl View for PermissionManager {
    type V = PermissionView;

    closed spec fn view(&self) -> PermissionView {
        PermissionView { mode: self.mode, rules: rules_view(self.rules@) }
    }
}

/// The tools that only read.
pub open spec fn read_only_tools() -> Seq<Seq<char>> {
    seq![
        "file_read"@,
        "grep"@,
        "glob"@,
        "ls"@,
        "git_status"@,
        "git_diff"@,
        "skill_list"@,
        "skill_read"@,
    ]
}

/// The tool `tool` only reads.
pub open spec fn is_read_only(tool: Seq<char>) -> bool {
    read_only_tools().contains(tool)
}

/// The rules a manager starts with: read-only tools are allowed; the shell,
/// writing and editing files, and committing ask.
pub open spec fn default_rules() -> Seq<(Seq<char>, PermissionAction)> {
    seq![
        ("file_read"@, PermissionAction::Allow),
        ("grep"@, PermissionAction::Allow),
        ("glob"@, PermissionAction::Allow),
        ("ls"@, PermissionAction::Allow),
        ("git_status"@, PermissionAction::Allow),
        ("git_diff"@, PermissionAction::Allow),
        ("skill_list"@, PermissionAction::Allow),
        ("skill_read"@, PermissionAction::Allow),
        ("shell"@, PermissionAction::Ask),
        ("file_write"@, PermissionAction::Ask),
        ("file_edit"@, PermissionAction::Ask),
        ("git_commit"@, PermissionAction::Ask),
    ]
}

/// The action of the first rule for `tool` at or after index `i`; `Ask` when none.
pub open spec fn rule_for(rules: Seq<(Seq<char>, PermissionAction)>, tool: Seq<char>, i: int) -> PermissionAction
    decreases rules.len() - i,
{
    if i < 0 || i >= rules.len() {
        PermissionAction::Ask
    } else if rules[i].0 == tool {
        rules[i].1
    } else {
        rule_for(rules, tool, i + 1)
    }
}

/// The patterns of dangerous shell commands, each with the reason given.
pub open spec fn dangerous_patterns() -> Seq<(Seq<char>, Seq<char>)> {
    seq![
        ("rm -rf /"@, "Dangerous: recursive delete from root"@),
        ("rm -rf /*"@, "Dangerous: recursive delete from root"@),
        ("rm -rf ~"@, "Dangerous: recursive delete home directory"@),
        ("chmod -r 777 /"@, "Dangerous: recursive chmod on root"@),
        ("chmod 777 /"@, "Dangerous: chmod on root"@),
        ("> /dev/sd"@, "Dangerous: writing to block device"@),
        ("mkfs."@, "Dangerous: filesystem formatting"@),
        ("dd if="@, "Dangerous: raw disk operation"@),
        (":(){ :|:& };:"@, "Dangerous: fork bomb"@),
        ("curl|sh"@, "Dangerous: pipe to shell"@),
        ("curl|bash"@, "Dangerous: pipe to shell"@),
        ("wget|sh"@, "Dangerous: pipe to shell"@),
        ("wget|bash"@, "Dangerous: pipe to shell"@),
    ]
}

/// The reason of the first dangerous pattern, at or after index `i`, that the
/// lower-case command `lower` contains.
pub open spec fn danger_from(lower: Seq<char>, i: int) -> Option<Seq<char>>
    decreases dangerous_patterns().len() - i,
{
    if i < 0 || i >= dangerous_patterns().len() {
        None
    } else if contains(lower, dangerous_patterns()[i].0) {
        Some(dangerous_patterns()[i].1)
    } else {
        danger_from(lower, i + 1)
    }
}

/// Why the shell command `cmd` is refused, if it is dangerous.
pub open spec fn danger(cmd: Seq<char>) -> Option<Seq<char>> {
    danger_from(lowercase(cmd), 0)
}

/// The answer to a call of `tool` with the JSON arguments `args`.
pub open spec fn verdict(p: PermissionView, tool: Seq<char>, args: Seq<char>) -> Verdict {
    match p.mode {
        PermissionMode::Yolo => Verdict::Allowed,
        PermissionMode::Plan => {
            if is_read_only(tool) {
                Verdict::Allowed
            } else {
                Verdict::Denied("Plan mode: read-only, no modifications allowed"@)
            }
        },
        _ => {
            if p.mode == PermissionMode::Auto && is_read_only(tool) {
                Verdict::Allowed
            } else {
                match rule_for(p.rules, tool, 0) {
                    PermissionAction::Allow => Verdict::Allowed,
                    PermissionAction::Deny => Verdict::Denied(
                        "Tool '"@ + tool + "' is denied by policy"@,
                    ),
                    PermissionAction::Ask => {
                        if tool == "shell"@ && json_string_field(args, "command"@) is Some && danger(
                            json_string_field(args, "command"@)->0,
                        ) is Some {
                            Verdict::Denied(danger(json_string_field(args, "command"@)->0)->0)
                        } else {
                            Verdict::NeedsApproval(
                                "Tool '"@ + tool + "' requires approval. Args: "@
                                    + json_compact_text(args),
                            )
                        }
                    },
                }
            }
        },
    }
}

/// Whether `tool` only reads.
pub fn tool_is_read_only(tool: &str) -> (r: bool)
    ensures
        r == is_read_only(tool@),
{
    let r = str_eq(tool, "file_read") || str_eq(tool, "grep") || str_eq(tool, "glob") || str_eq(
        tool,
        "ls",
    ) || str_eq(tool, "git_status") || str_eq(tool, "git_diff") || str_eq(tool, "skill_list")
        || str_eq(tool, "skill_read");
    proof {
        let ro = read_only_tools();
        if r {
            if tool@ == ro[0] {
            } else if tool@ == ro[1] {
            } else if tool@ == ro[2] {
            } else if tool@ == ro[3] {
            } else if tool@ == ro[4] {
            } else if tool@ == ro[5] {
            } else if tool@ == ro[6] {
            } else {
                assert(tool@ == ro[7]);
            }
        } else {
            assert forall|k: int| 0 <= k < ro.len() implies ro[k] != tool@ by {
                assert(k == 0 || k == 1 || k == 2 || k == 3 || k == 4 || k == 5 || k == 6 || k == 7);
            }
        }
    }
    r
}

/// Why a shell command is refused, if it is dangerous: the reason of the
/// first dangerous pattern that its lower-case form contains.
pub fn detect_dangerous_command(cmd: &str) -> (r: Option<String>)
    ensures
        match r {
            Some(m) => danger(cmd@) == Some(m@),
            None => danger(cmd@) is None,
        },
{
    let lower = to_lowercase(cmd);
    let l = lower.as_str();
    let ghost low = lowercase(cmd@);
    let pats: [(&str, &str); 13] = [
        ("rm -rf /", "Dangerous: recursive delete from root"),
        ("rm -rf /*", "Dangerous: recursive delete from root"),
        ("rm -rf ~", "Dangerous: recursive delete home directory"),
        ("chmod -r 777 /", "Dangerous: recursive chmod on root"),
        ("chmod 777 /", "Dangerous: chmod on root"),
        ("> /dev/sd", "Dangerous: writing to block device"),
        ("mkfs.", "Dangerous: filesystem formatting"),
        ("dd if=", "Dangerous: raw disk operation"),
        (":(){ :|:& };:", "Dangerous: fork bomb"),
        ("curl|sh", "Dangerous: pipe to shell"),
        ("curl|bash", "Dangerous: pipe to shell"),
        ("wget|sh", "Dangerous: pipe to shell"),
        ("wget|bash", "Dangerous: pipe to shell"),
    ];
    let mut i: usize = 0;
    while i < 13
        invariant
            i <= 13,
            low == lowercase(cmd@),
            l@ == low,
            forall|k: int| 0 <= k < 13 ==> (#[trigger] pats@[k]).0@ == dangerous_patterns()[k].0
                && pats@[k].1@ == dangerous_patterns()[k].1,
            danger_from(low, 0) == danger_from(low, i as int),
        decreases 13 - i,
    {
        let (pat, reason) = pats[i];
        assert(pats@[i as int].0@ == dangerous_patterns()[i as int].0);
        if str_contains(l, pat) {
            return Some(owned(reason));
        }
        i += 1;
    }
    None
}

impl PermissionManager {
    /// A manager in `mode` with the default rules.
    pub fn new(mode: PermissionMode) -> (r: Self)
        ensures
            r@ == (PermissionView { mode, rules: default_rules() }),
    {
        let mut rules: Vec<(String, PermissionAction)> = Vec::new();
        rules.push((owned("file_read"), PermissionAction::Allow));
        rules.push((owned("grep"), PermissionAction::Allow));
        rules.push((owned("glob"), PermissionAction::Allow));
        rules.push((owned("ls"), PermissionAction::Allow));
        rules.push((owned("git_status"), PermissionAction::Allow));
        rules.push((owned("git_diff"), PermissionAction::Allow));
        rules.push((owned("skill_list"), PermissionAction::Allow));
        rules.push((owned("skill_read"), PermissionAction::Allow));
        rules.push((owned("shell"), PermissionAction::Ask));
        rules.push((owned("file_write"), PermissionAction::Ask));
        rules.push((owned("file_edit"), PermissionAction::Ask));
        rules.push((owned("git_commit"), PermissionAction::Ask));
        assert(rules_view(rules@) =~= default_rules());
        PermissionManager { mode, rules }
    }

    /// The action of the first rule for `tool`; `Ask` when there is none.
    fn action_for(&self, tool: &str) -> (r: PermissionAction)
        ensures
            r == rule_for(self@.rules, tool@, 0),
    {
        let mut i: usize = 0;
        while i < self.rules.len()
            invariant
                i <= self.rules.len(),
                rule_for(self@.rules, tool@, 0) == rule_for(self@.rules, tool@, i as int),
            decreases self.rules.len() - i,
        {
            assert(self@.rules[i as int] == (self.rules@[i as int].0@, self.rules@[i as int].1));
            if str_eq(self.rules[i].0.as_str(), tool) {
                return self.rules[i].1;
            }
            i += 1;
        }
        PermissionAction::Ask
    }

    /// Decides on a call of `tool` with the JSON text of its arguments.
    pub fn check(&self, tool: &str, args: &str) -> (r: PermissionResult)
        ensures
            r@ == verdict(self@, tool@, args@),
    {
        match self.mode {
            PermissionMode::Yolo => PermissionResult::Allowed,
            PermissionMode::Plan => {
                if tool_is_read_only(tool) {
                    PermissionResult::Allowed
                } else {
                    PermissionResult::Denied(owned("Plan mode: read-only, no modifications allowed"))
                }
            },
            PermissionMode::Default | PermissionMode::Auto => {
                let auto = match self.mode {
                    PermissionMode::Auto => true,
                    _ => false,
                };
                if auto && tool_is_read_only(tool) {
                    return PermissionResult::Allowed;
                }
                match self.action_for(tool) {
                    PermissionAction::Allow => PermissionResult::Allowed,
                    PermissionAction::Deny => {
                        let mut m = owned("Tool '");
                        push_str(&mut m, tool);
                        push_str(&mut m, "' is denied by policy");
                        PermissionResult::Denied(m)
                    },
                    PermissionAction::Ask => {
                        if str_eq(tool, "shell") {
                            if let Some(cmd) = json_str_field(args, "command") {
                                if let Some(reason) = detect_dangerous_command(cmd.as_str()) {
                                    return PermissionResult::Denied(reason);
                                }
                            }
                        }
                        let mut m = owned("Tool '");
                        push_str(&mut m, tool);
                        push_str(&mut m, "' requires approval. Args: ");
                        let a = json_compact(args);
                        push_str(&mut m, a.as_str());
                        PermissionResult::NeedsApproval(m)
                    },
                }
            },
        }
    }

    /// Changes the mode; the rules stay.
    pub fn set_mode(&mut self, mode: PermissionMode)
        ensures
            final(self)@ == (PermissionView { mode, rules: old(self)@.rules }),
    {
        self.mode = mode;
    }

    /// The mode.
    pub fn mode(&self) -> (r: &PermissionMode)
        ensures
            *r == self@.mode,
    {
        &self.mode
    }
}

/// In `Yolo` mode every call runs.
pub proof fn law_yolo_allows_all(rules: Seq<(Seq<char>, PermissionAction)>, tool: Seq<char>, args: Seq<char>)
    ensures
        verdict(PermissionView { mode: PermissionMode::Yolo, rules }, tool, args) == Verdict::Allowed,
{
}

/// In `Plan` mode a call runs exactly when its tool only reads; every other
/// call is refused.
pub proof fn law_plan_allows_exactly_read_only(
    rules: Seq<(Seq<char>, PermissionAction)>,
    tool: Seq<char>,
    args: Seq<char>,
)
    ensures
        verdict(PermissionView { mode: PermissionMode::Plan, rules }, tool, args) == Verdict::Allowed
            <==> is_read_only(tool),
        !is_read_only(tool) ==> verdict(PermissionView { mode: PermissionMode::Plan, rules }, tool, args) is Denied,
{
}

/// With the default rules, a tool that only reads runs in every mode.
pub proof fn law_read_only_always_allowed(mode: PermissionMode, tool: Seq<char>, args: Seq<char>)
    requires
        is_read_only(tool),
    ensures
        verdict(PermissionView { mode, rules: default_rules() }, tool, args) == Verdict::Allowed,
{
    let ro = read_only_tools();
    let k = choose|k: int| 0 <= k < ro.len() && ro[k] == tool;
    let d = default_rules();
    assert(d[k].0 == tool && d[k].1 == PermissionAction::Allow);
    if mode == PermissionMode::Default {
        reveal_with_fuel(rule_for, 9);
        assert(rule_for(d, tool, 0) == PermissionAction::Allow);
    }
}

/// Outside `Yolo` mode, a dangerous shell command is refused with its reason
/// rather than offered for approval.
pub proof fn law_dangerous_shell_denied(mode: PermissionMode, args: Seq<char>, cmd: Seq<char>)
    requires
        mode == PermissionMode::Default || mode == PermissionMode::Auto,
        json_string_field(args, "command"@) == Some(cmd),
        danger(cmd) is Some,
    ensures
        verdict(PermissionView { mode, rules: default_rules() }, "shell"@, args) == Verdict::Denied(
            danger(cmd)->0,
        ),
{
    reveal_with_fuel(rule_for, 10);
    let d = default_rules();
    assert(!is_read_only("shell"@)) by {
        let ro = read_only_tools();
        assert forall|k: int| 0 <= k < ro.len() implies ro[k] != "shell"@ by {
            reveal_strlit("shell");
            reveal_strlit("file_read");
            reveal_strlit("grep");
            reveal_strlit("glob");
            reveal_strlit("ls");
            reveal_strlit("git_status");
            reveal_strlit("git_diff");
            reveal_strlit("skill_list");
            reveal_strlit("skill_read");
            assert("shell"@.len() == 5);
            assert(ro[k].len() != 5) by {
                assert(k == 0 || k == 1 || k == 2 || k == 3 || k == 4 || k == 5 || k == 6 || k == 7);
                if k == 0 { assert(ro[k].len() == 9); }
                else if k == 1 { assert(ro[k].len() == 4); }
                else if k == 2 { assert(ro[k].len() == 4); }
                else if k == 3 { assert(ro[k].len() == 2); }
                else if k == 4 { assert(ro[k].len() == 10); }
                else if k == 5 { assert(ro[k].len() == 8); }
                else if k == 6 { assert(ro[k].len() == 10); }
                else { assert(ro[k].len() == 10); }
            }
        }
    }
    assert(rule_for(d, "shell"@, 0) == PermissionAction::Ask) by {
        reveal_strlit("shell");
        reveal_strlit("file_read");
        reveal_strlit("grep");
        reveal_strlit("glob");
        reveal_strlit("ls");
        reveal_strlit("git_status");
        reveal_strlit("git_diff");
        reveal_strlit("skill_list");
        reveal_strlit("skill_read");
    }
}


/// `Auto` differs from `Default` only in letting the tools that only read run
/// without asking: for any other tool the answer is the same, so `Auto` never
/// refuses a call that `Default` would let through or ask about.
pub proof fn law_auto_is_default_beyond_reading(
    rules: Seq<(Seq<char>, PermissionAction)>,
    tool: Seq<char>,
    args: Seq<char>,
)
    ensures
        !is_read_only(tool) ==> verdict(PermissionView { mode: PermissionMode::Auto, rules }, tool, args)
            == verdict(PermissionView { mode: PermissionMode::Default, rules }, tool, args),
        verdict(PermissionView { mode: PermissionMode::Auto, rules }, tool, args) is Denied
            ==> verdict(PermissionView { mode: PermissionMode::Default, rules }, tool, args) is Denied,
{
}

/// In `Default` and `Auto` mode, a tool whose rule says to ask (and which
/// `Auto` does not let through as read-only) is offered for approval, with its
/// name and arguments, unless it is a dangerous shell command.
pub proof fn law_ask_rule_needs_approval(
    mode: PermissionMode,
    rules: Seq<(Seq<char>, PermissionAction)>,
    tool: Seq<char>,
    args: Seq<char>,
)
    requires
        mode == PermissionMode::Default || mode == PermissionMode::Auto,
        !(mode == PermissionMode::Auto && is_read_only(tool)),
        rule_for(rules, tool, 0) == PermissionAction::Ask,
        tool == "shell"@ && json_string_field(args, "command"@) is Some ==> danger(
            json_string_field(args, "command"@)->0,
        ) is None,
    ensures
        verdict(PermissionView { mode, rules }, tool, args) == Verdict::NeedsApproval(
            "Tool '"@ + tool + "' requires approval. Args: "@ + json_compact_text(args),
        ),
{
}

} // verus!
