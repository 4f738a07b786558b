//! Skills: SKILL.md files whose frontmatter (between `---` lines) names and
//! describes them and counts their use, and the tools made from them.
use vstd::prelude::*;
use crate::json::{json_str_field, json_string_field};
use crate::message::{msgs_view, Message, MessageView, Role, ToolCallView};
use crate::text::{decimal, decimal_exec, join, replace_all, replace_all_exec, string_views, lemma_string_views_push,
    all_digits, chars_of, contains, find, find_exec, find_from, lemma_find_from_range, lines,
    lines_exec, owned, parse_u32, parsed_u32, push_str, slice_vec, starts_with, starts_with_exec,
    str_contains, string_of, trim, trim_exec, views,
};

verus! {

/// A skill as the agent keeps it.
#[derive(Debug, Clone)]
pub struct Skill {
    pub name: String,
    pub description: String,
    pub content: String,
    pub version: u32,
    pub created_at: String,
    pub usage_count: u32,
    pub success_count: u32,
}

/// The frontmatter of a SKILL.md: what lies between the leading `---` of the
/// trimmed text and the next `---`; none when either is missing.
pub open spec fn frontmatter(content: Seq<char>) -> Option<Seq<char>> {
    let t = trim(content);
    if starts_with(t, "---"@) {
        let after = t.skip(3);
        match find(after, "---"@) {
            Some(e) => Some(after.take(e)),
            None => None,
        }
    } else {
        None
    }
}

/// The value of the first line, trimmed, that starts with `key:`: the rest of
/// that line, trimmed.
pub open spec fn field_in_lines(ls: Seq<Seq<char>>, key: Seq<char>) -> Option<Seq<char>>
    decreases ls.len(),
{
    if ls.len() == 0 {
        None
    } else {
        let l = trim(ls[0]);
        let prefix = key + ":"@;
        if starts_with(l, prefix) {
            Some(trim(l.skip(prefix.len() as int)))
        } else {
            field_in_lines(ls.drop_first(), key)
        }
    }
}

/// The name and description that the frontmatter lines give so far: a later
/// `name:` or `description:` line replaces an earlier one.
pub open spec fn name_and_description(
    ls: Seq<Seq<char>>,
    name: Option<Seq<char>>,
    desc: Option<Seq<char>>,
) -> (Option<Seq<char>>, Option<Seq<char>>)
    decreases ls.len(),
{
    if ls.len() == 0 {
        (name, desc)
    } else {
        let l = trim(ls[0]);
        if starts_with(l, "name:"@) {
            name_and_description(ls.drop_first(), Some(trim(l.skip(5))), desc)
        } else if starts_with(l, "description:"@) {
            name_and_description(ls.drop_first(), name, Some(trim(l.skip(12))))
        } else {
            name_and_description(ls.drop_first(), name, desc)
        }
    }
}

/// The name and description of a skill, when its frontmatter gives both.
pub open spec fn skill_header(content: Seq<char>) -> Option<(Seq<char>, Seq<char>)> {
    match frontmatter(content) {
        Some(fm) => match name_and_description(lines(fm), None, None) {
            (Some(n), Some(d)) => Some((n, d)),
            _ => None,
        },
        None => None,
    }
}

/// The body of a SKILL.md: what follows its frontmatter, trimmed; the whole
/// trimmed text when there is no complete frontmatter.
pub open spec fn skill_body(content: Seq<char>) -> Seq<char> {
    let t = trim(content);
    if !starts_with(t, "---"@) {
        t
    } else {
        let after = t.skip(3);
        match find(after, "---"@) {
            Some(e) => trim(after.skip(e + 3)),
            None => t,
        }
    }
}

/// The trimmed text and, when it opens a frontmatter, where the closing
/// `---` starts in what follows the opening one.
fn frontmatter_bounds(content: &str) -> (r: (Vec<char>, Option<usize>))
    ensures
        r.0@ == trim(content@),
        match r.1 {
            Some(e) => starts_with(r.0@, "---"@) && find(r.0@.skip(3), "---"@) == Some(e as int) && 3 + e + 3
                <= r.0@.len(),
            None => !starts_with(r.0@, "---"@) || find(r.0@.skip(3), "---"@) is None,
        },
{
    let cs = chars_of(content);
    let t = trim_exec(cs.as_slice());
    let dashes = chars_of("---");
    proof {
        reveal_strlit("---");
    }
    if !starts_with_exec(t.as_slice(), dashes.as_slice()) {
        return (t, None);
    }
    let after = slice_vec(t.as_slice(), 3, t.len());
    assert(t@.subrange(3, t@.len() as int) =~= t@.skip(3));
    let e = find_exec(after.as_slice(), dashes.as_slice());
    proof {
        lemma_find_from_range(after@, dashes@, 0);
        assert(find(after@, dashes@) == find_from(after@, dashes@, 0));
    }
    (t, e)
}

/// The value of `field` in the lines.
fn field_in_lines_exec(ls: &Vec<Vec<char>>, field: &str) -> (r: Option<Vec<char>>)
    ensures
        match r {
            Some(v) => field_in_lines(views(ls@), field@) == Some(v@),
            None => field_in_lines(views(ls@), field@) is None,
        },
{
    let mut prefix = chars_of(field);
    prefix.push(':');
    proof {
        reveal_strlit(":");
    }
    assert(prefix@ =~= field@ + ":"@);
    let ghost lv = views(ls@);
    let mut i: usize = 0;
    assert(lv.skip(0) =~= lv);
    while i < ls.len()
        invariant
            i <= ls.len(),
            lv == views(ls@),
            prefix@ == field@ + ":"@,
            field_in_lines(lv, field@) == field_in_lines(lv.skip(i as int), field@),
        decreases ls.len() - i,
    {
        let l = trim_exec(ls[i].as_slice());
        let ghost rest = lv.skip(i as int);
        assert(rest[0] == ls@[i as int]@);
        assert(rest.drop_first() =~= lv.skip(i + 1));
        if starts_with_exec(l.as_slice(), prefix.as_slice()) {
            let tail = slice_vec(l.as_slice(), prefix.len(), l.len());
            assert(l@.subrange(prefix@.len() as int, l@.len() as int) =~= l@.skip(prefix@.len() as int));
            return Some(trim_exec(tail.as_slice()));
        }
        i += 1;
    }
    None
}

/// The value of the first line of `content` that starts with `field:`.
pub fn extract_field_str(content: &str, field: &str) -> (r: Option<String>)
    ensures
        match r {
            Some(v) => field_in_lines(lines(content@), field@) == Some(v@),
            None => field_in_lines(lines(content@), field@) is None,
        },
{
    let cs = chars_of(content);
    let ls = lines_exec(cs.as_slice());
    match field_in_lines_exec(&ls, field) {
        Some(v) => Some(string_of(v.as_slice())),
        None => None,
    }
}

/// The number on the first line of `content` that starts with `field:`; none
/// when there is no such line or it does not hold a `u32`.
pub fn extract_field_u32(content: &str, field: &str) -> (r: Option<u32>)
    ensures
        r == match field_in_lines(lines(content@), field@) {
            Some(v) => parsed_u32(v),
            None => None,
        },
{
    let cs = chars_of(content);
    let ls = lines_exec(cs.as_slice());
    match field_in_lines_exec(&ls, field) {
        Some(v) => parse_u32(v.as_slice()),
        None => None,
    }
}

/// The value of `field` in the frontmatter of a SKILL.md.
pub fn extract_frontmatter_field(content: &str, field: &str) -> (r: Option<String>)
    ensures
        match r {
            Some(v) => match frontmatter(content@) {
                Some(fm) => field_in_lines(lines(fm), field@) == Some(v@),
                None => false,
            },
            None => match frontmatter(content@) {
                Some(fm) => field_in_lines(lines(fm), field@) is None,
                None => true,
            },
        },
{
    let (t, e) = frontmatter_bounds(content);
    let tl = t.len();
    match e {
        None => None,
        Some(e) => {
            let fm = slice_vec(t.as_slice(), 3, 3 + e);
            assert(fm@ =~= t@.skip(3).take(e as int));
            let ls = lines_exec(fm.as_slice());
            match field_in_lines_exec(&ls, field) {
                Some(v) => Some(string_of(v.as_slice())),
                None => None,
            }
        },
    }
}

/// The body of a SKILL.md, after its frontmatter.
pub fn extract_body(content: &str) -> (r: String)
    ensures
        r@ == skill_body(content@),
{
    let (t, e) = frontmatter_bounds(content);
    let tl = t.len();
    match e {
        None => string_of(t.as_slice()),
        Some(e) => {
            let rest = slice_vec(t.as_slice(), 3 + e + 3, t.len());
            assert(rest@ =~= t@.skip(3).skip(e + 3));
            let b = trim_exec(rest.as_slice());
            string_of(b.as_slice())
        },
    }
}

/// The name and description in the frontmatter of a SKILL.md, when it gives
/// both.
pub fn parse_frontmatter(content: &str) -> (r: Option<(String, String)>)
    ensures
        match r {
            Some((n, d)) => skill_header(content@) == Some((n@, d@)),
            None => skill_header(content@) is None,
        },
{
    let (t, e) = frontmatter_bounds(content);
    let tl = t.len();
    let e = match e {
        None => return None,
        Some(e) => e,
    };
    let fm = slice_vec(t.as_slice(), 3, 3 + e);
    assert(fm@ =~= t@.skip(3).take(e as int));
    let ls = lines_exec(fm.as_slice());
    let ghost lv = views(ls@);
    let name_key = chars_of("name:");
    let desc_key = chars_of("description:");
    proof {
        reveal_strlit("name:");
        reveal_strlit("description:");
    }
    let mut name: Option<Vec<char>> = None;
    let mut desc: Option<Vec<char>> = None;
    let mut i: usize = 0;
    assert(lv.skip(0) =~= lv);
    while i < ls.len()
        invariant
            i <= ls.len(),
            lv == views(ls@),
            name_key@ == "name:"@,
            desc_key@ == "description:"@,
            name_and_description(lv, None, None) == name_and_description(
                lv.skip(i as int),
                match name { Some(v) => Some(v@), None => None },
                match desc { Some(v) => Some(v@), None => None },
            ),
        decreases ls.len() - i,
    {
        let l = trim_exec(ls[i].as_slice());
        let ghost rest = lv.skip(i as int);
        assert(rest[0] == ls@[i as int]@);
        assert(rest.drop_first() =~= lv.skip(i + 1));
        proof {
            reveal_strlit("name:");
            reveal_strlit("description:");
        }
        if starts_with_exec(l.as_slice(), name_key.as_slice()) {
            let tail = slice_vec(l.as_slice(), 5, l.len());
            assert(l@.subrange(5, l@.len() as int) =~= l@.skip(5));
            name = Some(trim_exec(tail.as_slice()));
        } else if starts_with_exec(l.as_slice(), desc_key.as_slice()) {
            let tail = slice_vec(l.as_slice(), 12, l.len());
            assert(l@.subrange(12, l@.len() as int) =~= l@.skip(12));
            desc = Some(trim_exec(tail.as_slice()));
        }
        i += 1;
    }
    assert(lv.skip(i as int) =~= Seq::<Seq<char>>::empty());
    match (name, desc) {
        (Some(n), Some(d)) => Some((string_of(n.as_slice()), string_of(d.as_slice()))),
        _ => None,
    }
}

/// Whether a finished task is worth a new skill: it took at least five tool
/// calls and its result mentions no error or failure.
pub fn should_create_skill(tool_call_count: usize, result: &str) -> (r: bool)
    ensures
        r == (tool_call_count >= 5 && !contains(result@, "Error"@) && !contains(result@, "failed"@)),
{
    tool_call_count >= 5 && !str_contains(result, "Error") && !str_contains(result, "failed")
}

/// The skill described by a SKILL.md that the model wrote: its name and
/// description from the frontmatter, its text trimmed, at version 1 and unused.
pub fn new_skill(response: &str, now: &str) -> (r: Option<Skill>)
    ensures
        match r {
            Some(s) => skill_header(trim(response@)) == Some((s.name@, s.description@))
                && s.content@ == trim(response@) && s.version == 1 && s.created_at@ == now@
                && s.usage_count == 0 && s.success_count == 0,
            None => skill_header(trim(response@)) is None,
        },
{
    let content = crate::text::trim_str(response);
    match parse_frontmatter(content.as_str()) {
        Some((name, description)) => Some(
            Skill {
                name,
                description,
                content,
                version: 1,
                created_at: owned(now),
                usage_count: 0,
                success_count: 0,
            },
        ),
        None => None,
    }
}

/// The skill stored as `content` in the directory `name`: the frontmatter's
/// name and description (the directory's name and `No description` when it
/// lacks them), its counters (version 1 and no use when absent), and its
/// creation time (`now` when absent).
pub fn skill_from_content(name: &str, content: &str, now: &str) -> (r: Skill)
    ensures
        match skill_header(content@) {
            Some((n, d)) => r.name@ == n && r.description@ == d,
            None => r.name@ == name@ && r.description@ == "No description"@,
        },
        r.content@ == content@,
        r.version == match field_in_lines(lines(content@), "version"@) {
            Some(v) => match parsed_u32(v) { Some(x) => x, None => 1u32 },
            None => 1u32,
        },
        r.usage_count == match field_in_lines(lines(content@), "usage_count"@) {
            Some(v) => match parsed_u32(v) { Some(x) => x, None => 0u32 },
            None => 0u32,
        },
        r.success_count == match field_in_lines(lines(content@), "success_count"@) {
            Some(v) => match parsed_u32(v) { Some(x) => x, None => 0u32 },
            None => 0u32,
        },
        r.created_at@ == match field_in_lines(lines(content@), "created_at"@) {
            Some(v) => v,
            None => now@,
        },
{
    let (n, d) = match parse_frontmatter(content) {
        Some(p) => p,
        None => (owned(name), owned("No description")),
    };
    let version = match extract_field_u32(content, "version") {
        Some(v) => v,
        None => 1,
    };
    let usage_count = match extract_field_u32(content, "usage_count") {
        Some(v) => v,
        None => 0,
    };
    let success_count = match extract_field_u32(content, "success_count") {
        Some(v) => v,
        None => 0,
    };
    let created_at = match extract_field_str(content, "created_at") {
        Some(v) => v,
        None => owned(now),
    };
    Skill { name: n, description: d, content: owned(content), version, created_at, usage_count, success_count }
}

// ───────────────────────────── tools made from skills ─────────────────────────────

/// A tool made from a SKILL.md: it hands the skill's instructions to the
/// model together with the task.
pub struct CustomSkillTool {
    name: String,
    description: String,
    instructions: String,
}

/// The value of a [`CustomSkillTool`]: name, description, instructions.
pub ghost struct CustomSkillView {
    pub name: Seq<char>,
    pub description: Seq<char>,
    pub instructions: Seq<char>,
}

impl View for CustomSkillTool {
    type V = CustomSkillView;

    closed spec fn view(&self) -> CustomSkillView {
        CustomSkillView { name: self.name@, description: self.description@, instructions: self.instructions@ }
    }
}

impl CustomSkillTool {
    /// The tool for the skill `name` stored as `content`: it is named
    /// `skill_<name>`, described by the frontmatter's description (a default
    /// one naming the skill when it has none), and its instructions are the
    /// body of the file.
    pub fn from_skill_md(name: &str, content: &str) -> (r: Option<Self>)
        ensures
            r matches Some(t) && t@.name == "skill_"@ + name@ && t@.instructions == skill_body(content@)
                && t@.description == match frontmatter(content@) {
                    Some(fm) => match field_in_lines(lines(fm), "description"@) {
                        Some(d) => d,
                        None => "Custom skill: "@ + name@,
                    },
                    None => "Custom skill: "@ + name@,
                },
    {
        let description = match extract_frontmatter_field(content, "description") {
            Some(d) => d,
            None => {
                let mut d = owned("Custom skill: ");
                push_str(&mut d, name);
                d
            },
        };
        let instructions = extract_body(content);
        let mut tool_name = owned("skill_");
        push_str(&mut tool_name, name);
        Some(CustomSkillTool { name: tool_name, description, instructions })
    }

    /// The tool's name.
    pub fn name(&self) -> (r: &str)
        ensures
            r@ == self@.name,
    {
        self.name.as_str()
    }

    /// The tool's description.
    pub fn description(&self) -> (r: &str)
        ensures
            r@ == self@.description,
    {
        self.description.as_str()
    }

    /// What running the tool with the JSON arguments `args` gives: the
    /// instructions and the task, or an error when `task` is missing.
    pub fn run(&self, args: &str) -> (r: Result<String, String>)
        ensures
            match json_string_field(args@, "task"@) {
                Some(task) => r matches Ok(s) && s@ == "Skill '"@ + self@.name + "' instructions:\n\n"@
                    + self@.instructions + "\n\nTask: "@ + task,
                None => r matches Err(e) && e@ == "Missing 'task' argument"@,
            },
    {
        match json_str_field(args, "task") {
            None => Err(owned("Missing 'task' argument")),
            Some(task) => {
                let mut s = owned("Skill '");
                push_str(&mut s, self.name.as_str());
                push_str(&mut s, "' instructions:\n\n");
                push_str(&mut s, self.instructions.as_str());
                push_str(&mut s, "\n\nTask: ");
                push_str(&mut s, task.as_str());
                Ok(s)
            },
        }
    }
}

// ───────────────────────────── learning skills ─────────────────────────────

/// The number that the line of `field` in `content` holds, as
/// [`extract_field_u32`] reads it.
pub open spec fn field_number(content: Seq<char>, field: Seq<char>) -> Option<u32> {
    match field_in_lines(lines(content), field) {
        Some(v) => parsed_u32(v),
        None => None,
    }
}

/// `content` with the counter `field` counted up by one: each occurrence of
/// `field: n` becomes `field: n+1`, `n` being the number on the field's
/// line; unchanged when that line holds no number.
pub open spec fn bumped(content: Seq<char>, field: Seq<char>) -> Seq<char> {
    match field_number(content, field) {
        Some(n) => replace_all(
            content,
            field + ": "@ + decimal(n as nat),
            field + ": "@ + decimal((n + 1) as nat),
        ),
        None => content,
    }
}

/// Counts up the counter `field` of a SKILL.md (its use, or its successes).
pub fn bump_counter(content: &str, field: &str) -> (r: String)
    requires
        field_number(content@, field@) != Some(u32::MAX),
    ensures
        r@ == bumped(content@, field@),
{
    match extract_field_u32(content, field) {
        Some(n) => {
            let mut from = owned(field);
            push_str(&mut from, ": ");
            let mut to = owned(from.as_str());
            let d = decimal_exec(n as u64);
            let e = decimal_exec(n as u64 + 1);
            let ds = string_of(d.as_slice());
            let es = string_of(e.as_slice());
            push_str(&mut from, ds.as_str());
            push_str(&mut to, es.as_str());
            replace_all_exec(content, from.as_str(), to.as_str())
        },
        None => owned(content),
    }
}

/// How many tool calls the messages hold in all.
pub open spec fn calls_in(ms: Seq<MessageView>) -> int
    decreases ms.len(),
{
    if ms.len() == 0 {
        0
    } else {
        calls_in(ms.drop_last()) + match ms.last().tool_calls {
            Some(cs) => cs.len() as int,
            None => 0,
        }
    }
}

proof fn lemma_calls_in_prefix(ms: Seq<MessageView>, i: int)
    requires
        0 <= i <= ms.len(),
    ensures
        0 <= calls_in(ms.take(i)) <= calls_in(ms),
    decreases ms.len() - i,
{
    if i < ms.len() {
        lemma_calls_in_prefix(ms, i + 1);
        assert(ms.take(i + 1).drop_last() =~= ms.take(i));
    } else {
        assert(ms.take(i) =~= ms);
    }
    lemma_calls_in_nonneg(ms.take(i));
}

proof fn lemma_calls_in_nonneg(ms: Seq<MessageView>)
    ensures
        calls_in(ms) >= 0,
    decreases ms.len(),
{
    if ms.len() > 0 {
        lemma_calls_in_nonneg(ms.drop_last());
    }
}

/// The number of tool calls in a conversation.
pub fn tool_call_count(messages: &[Message]) -> (r: usize)
    requires
        calls_in(msgs_view(messages@)) <= usize::MAX,
    ensures
        r == calls_in(msgs_view(messages@)),
{
    let ghost ms = msgs_view(messages@);
    let mut total: usize = 0;
    let mut i: usize = 0;
    while i < messages.len()
        invariant
            i <= messages.len(),
            ms == msgs_view(messages@),
            calls_in(ms) <= usize::MAX,
            total == calls_in(ms.take(i as int)),
        decreases messages.len() - i,
    {
        proof {
            assert(ms.take(i + 1).drop_last() =~= ms.take(i as int));
            assert(ms.take(i + 1).last() == messages@[i as int]@);
            lemma_calls_in_prefix(ms, i + 1);
        }
        match &messages[i].tool_calls {
            Some(cs) => {
                total = total + cs.len();
            },
            None => {},
        }
        i += 1;
    }
    assert(ms.take(messages.len() as int) =~= ms);
    total
}

/// How a role is named in a conversation's text.
pub open spec fn role_name(r: Role) -> Seq<char> {
    match r {
        Role::System => "system"@,
        Role::User => "user"@,
        Role::Assistant => "assistant"@,
        Role::Tool => "tool"@,
    }
}

/// The lines of the tool calls of a message, each after a line break.
pub open spec fn call_lines(cs: Seq<ToolCallView>) -> Seq<char>
    decreases cs.len(),
{
    if cs.len() == 0 {
        Seq::empty()
    } else {
        call_lines(cs.drop_last()) + "\n  -> tool_call: "@ + cs.last().name + "("@ + cs.last().arguments + ")"@
    }
}

/// The entry of one message: its role and text, then its tool calls.
pub open spec fn conversation_entry(m: MessageView) -> Seq<char> {
    "["@ + role_name(m.role) + "]: "@ + m.content + match m.tool_calls {
        Some(cs) => call_lines(cs),
        None => Seq::empty(),
    }
}

/// A conversation as the model reads it when looking for a skill: one entry
/// per message, one per line.
pub open spec fn conversation_text(ms: Seq<MessageView>) -> Seq<char> {
    join(ms.map_values(|m: MessageView| conversation_entry(m)), "\n"@)
}

fn role_text(r: Role) -> (t: &'static str)
    ensures
        t@ == role_name(r),
{
    match r {
        Role::System => "system",
        Role::User => "user",
        Role::Assistant => "assistant",
        Role::Tool => "tool",
    }
}

fn entry_of(m: &Message) -> (r: String)
    ensures
        r@ == conversation_entry(m@),
{
    let mut r = owned("[");
    push_str(&mut r, role_text(m.role));
    push_str(&mut r, "]: ");
    push_str(&mut r, m.content.as_str());
    match &m.tool_calls {
        Some(cs) => {
            let ghost cv = crate::message::calls_view(cs@);
            let ghost head = r@;
            let mut j: usize = 0;
            while j < cs.len()
                invariant
                    j <= cs.len(),
                    cv == crate::message::calls_view(cs@),
                    r@ == head + call_lines(cv.take(j as int)),
                decreases cs.len() - j,
            {
                proof {
                    assert(cv.take(j + 1).drop_last() =~= cv.take(j as int));
                    assert(cv.take(j + 1).last() == cs@[j as int]@);
                }
                push_str(&mut r, "\n  -> tool_call: ");
                push_str(&mut r, cs[j].name.as_str());
                push_str(&mut r, "(");
                push_str(&mut r, cs[j].arguments.as_str());
                push_str(&mut r, ")");
                j += 1;
            }
            assert(cv.take(cs.len() as int) =~= cv);
            assert(m@.tool_calls == Some(cv));
        },
        None => {
            assert(r@ =~= conversation_entry(m@));
        },
    }
    r
}

/// The text of a conversation in which the model looks for a skill.
pub fn conversation_for_skill(messages: &[Message]) -> (r: String)
    ensures
        r@ == conversation_text(msgs_view(messages@)),
{
    let ghost ms = msgs_view(messages@);
    let ghost es = ms.map_values(|m: MessageView| conversation_entry(m));
    let mut entries: Vec<String> = Vec::new();
    let mut i: usize = 0;
    while i < messages.len()
        invariant
            i <= messages.len(),
            ms == msgs_view(messages@),
            es == ms.map_values(|m: MessageView| conversation_entry(m)),
            string_views(entries@) == es.take(i as int),
        decreases messages.len() - i,
    {
        let e = entry_of(&messages[i]);
        let ghost before = entries@;
        entries.push(e);
        proof {
            lemma_string_views_push(before, e);
            assert(es.take(i + 1) =~= es.take(i as int).push(e@));
        }
        i += 1;
    }
    assert(es.take(messages.len() as int) =~= es);
    crate::tools::join_strings(&entries, "\n")
}

} // verus!
