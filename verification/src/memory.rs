//! What is worth remembering from a conversation: messages that state a
//! preference, knowledge of the project, or an error met, found by keywords
//! that stand as whole words.
use vstd::prelude::*;
use crate::message::{msgs_view, Message, MessageView, Role};
use crate::text::{
    chars_of, find_from, find_from_exec, is_ascii_alnum, is_ascii_alnum_exec, lemma_find_from_range,
    lowercase, owned, string_views, to_lowercase, utf8_width, utf8_width_exec,
};

verus! {

/// Words that state a preference.
pub open spec fn preference_keywords() -> Seq<Seq<char>> {
    seq![
        "i prefer"@, "i like"@, "i use"@, "i always"@, "i want"@, "我喜欢"@, "我偏好"@, "我习惯"@,
        "我用"@, "use pnpm"@, "use yarn"@, "use npm"@, "use bun"@, "4 spaces"@, "2 spaces"@,
        "tabs"@, "indent"@,
    ]
}

/// Words that state knowledge of the project.
pub open spec fn project_keywords() -> Seq<Seq<char>> {
    seq![
        "this project"@, "our codebase"@, "we use"@, "we have"@, "这个项目"@, "我们用"@, "我们的"@,
        "database is"@, "framework is"@, "language is"@, "stack is"@, "部署"@, "deploy"@,
        "architecture"@, "架构"@,
    ]
}

/// Words that report an error met.
pub open spec fn error_keywords() -> Seq<Seq<char>> {
    seq![
        "will fail"@, "doesn't work"@, "doesn't support"@, "bug"@, "error because"@, "crash"@,
        "broken"@, "not compatible"@, "会失败"@, "不支持"@, "有 bug"@, "会报错"@,
    ]
}

/// How the search for a keyword ends: found as a whole word, not found, or
/// stopped because the search would resume inside a character (where the
/// byte-wise search cannot cut the text and fails).
#[derive(Debug, Clone, Copy, PartialEq, Eq, Structural)]
pub enum ScanOutcome {
    Found,
    NotFound,
    Broken,
}

/// The occurrence of `k` at `p` in `c` stands as a whole word: no ASCII
/// letter or digit touches it.
pub open spec fn whole_word_at(c: Seq<char>, k: Seq<char>, p: int) -> bool {
    (p == 0 || !is_ascii_alnum(c[p - 1])) && (p + k.len() >= c.len() || !is_ascii_alnum(c[p + k.len()]))
}

/// The search for `k` in `c` from character `start` on: each occurrence in
/// turn, until one stands as a whole word; after one that does not, the
/// search goes on one byte further, which is the next character only when the
/// character there is one byte long.
pub open spec fn scan(c: Seq<char>, k: Seq<char>, start: int) -> ScanOutcome
    decreases c.len() + 1 - start,
{
    if start < 0 || start > c.len() {
        ScanOutcome::NotFound
    } else {
        match find_from(c, k, start) {
            None => ScanOutcome::NotFound,
            Some(p) => {
                if whole_word_at(c, k, p) {
                    ScanOutcome::Found
                } else if p < c.len() && utf8_width(c[p]) == 1 && p >= start {
                    scan(c, k, p + 1)
                } else {
                    ScanOutcome::Broken
                }
            },
        }
    }
}

/// The search for the keywords `ks` from index `i` on, each lower-cased,
/// in the lower-cased text `c`: the first one found, or a break.
pub open spec fn scan_keywords(c: Seq<char>, ks: Seq<Seq<char>>, i: int) -> ScanOutcome
    decreases ks.len() - i,
{
    if i < 0 || i >= ks.len() {
        ScanOutcome::NotFound
    } else {
        match scan(c, lowercase(ks[i]), 0) {
            ScanOutcome::NotFound => scan_keywords(c, ks, i + 1),
            other => other,
        }
    }
}

/// Whether the text `content` holds one of the keywords as a whole word.
pub open spec fn keyword_outcome(content: Seq<char>, ks: Seq<Seq<char>>) -> ScanOutcome {
    scan_keywords(lowercase(content), ks, 0)
}

/// The search for `k` in `c` from `start`.
fn scan_exec(c: &[char], k: &[char], start: usize) -> (r: ScanOutcome)
    requires
        start <= c.len(),
    ensures
        r == scan(c@, k@, start as int),
{
    let mut s = start;
    while s <= c.len()
        invariant
            start <= s,
            scan(c@, k@, start as int) == scan(c@, k@, s as int),
        decreases c.len() + 1 - s,
    {
        match find_from_exec(c, k, s) {
            None => {
                return ScanOutcome::NotFound;
            },
            Some(p) => {
                proof {
                    lemma_find_from_range(c@, k@, s as int);
                }
                let n = c.len();
                let before_ok = p == 0 || !is_ascii_alnum_exec(c[p - 1]);
                let end = p + k.len();
                let after_ok = end >= n || !is_ascii_alnum_exec(c[end]);
                if before_ok && after_ok {
                    return ScanOutcome::Found;
                }
                if p < n && utf8_width_exec(c[p]) == 1 {
                    s = p + 1;
                } else {
                    return ScanOutcome::Broken;
                }
            },
        }
    }
    ScanOutcome::NotFound
}

/// The search of the keywords in `content`, lower-cased.
fn keyword_scan(content: &str, ks: &[&str]) -> (r: ScanOutcome)
    ensures
        r == scan_keywords(lowercase(content@), ks@.map_values(|k: &str| k@), 0),
{
    let lower = to_lowercase(content);
    let c = chars_of(lower.as_str());
    let ghost kv = ks@.map_values(|k: &str| k@);
    let mut i: usize = 0;
    while i < ks.len()
        invariant
            i <= ks.len(),
            kv == ks@.map_values(|k: &str| k@),
            c@ == lowercase(content@),
            scan_keywords(c@, kv, 0) == scan_keywords(c@, kv, i as int),
        decreases ks.len() - i,
    {
        let kl = to_lowercase(ks[i]);
        let k = chars_of(kl.as_str());
        assert(kv[i as int] == ks@[i as int]@);
        match scan_exec(c.as_slice(), k.as_slice(), 0) {
            ScanOutcome::NotFound => {},
            other => {
                return other;
            },
        }
        i += 1;
    }
    ScanOutcome::NotFound
}

fn preference_scan(content: &str) -> (r: ScanOutcome)
    ensures
        r == keyword_outcome(content@, preference_keywords()),
{
    let ks: [&str; 17] = [
        "i prefer", "i like", "i use", "i always", "i want", "我喜欢", "我偏好", "我习惯", "我用",
        "use pnpm", "use yarn", "use npm", "use bun", "4 spaces", "2 spaces", "tabs", "indent",
    ];
    assert(ks@.map_values(|k: &str| k@) =~= preference_keywords());
    keyword_scan(content, &ks)
}

fn project_scan(content: &str) -> (r: ScanOutcome)
    ensures
        r == keyword_outcome(content@, project_keywords()),
{
    let ks: [&str; 15] = [
        "this project", "our codebase", "we use", "we have", "这个项目", "我们用", "我们的",
        "database is", "framework is", "language is", "stack is", "部署", "deploy", "architecture",
        "架构",
    ];
    assert(ks@.map_values(|k: &str| k@) =~= project_keywords());
    keyword_scan(content, &ks)
}

fn error_scan(content: &str) -> (r: ScanOutcome)
    ensures
        r == keyword_outcome(content@, error_keywords()),
{
    let ks: [&str; 12] = [
        "will fail", "doesn't work", "doesn't support", "bug", "error because", "crash", "broken",
        "not compatible", "会失败", "不支持", "有 bug", "会报错",
    ];
    assert(ks@.map_values(|k: &str| k@) =~= error_keywords());
    keyword_scan(content, &ks)
}

/// How the keyword searches on a message's lower-cased text end: the first
/// list that matches, or a break, or nothing.
pub open spec fn memory_outcome(m: MessageView) -> ScanOutcome {
    let c = lowercase(m.content);
    match keyword_outcome(c, preference_keywords()) {
        ScanOutcome::NotFound => match keyword_outcome(c, project_keywords()) {
            ScanOutcome::NotFound => keyword_outcome(c, error_keywords()),
            other => other,
        },
        other => other,
    }
}

/// The message is the user's or the assistant's.
pub open spec fn is_dialogue(m: MessageView) -> bool {
    m.role == Role::User || m.role == Role::Assistant
}

/// No search on the messages breaks.
pub open spec fn memories_searchable(ms: Seq<MessageView>) -> bool {
    forall|i: int| 0 <= i < ms.len() && is_dialogue(#[trigger] ms[i]) ==> memory_outcome(ms[i]) != ScanOutcome::Broken
}

/// The texts worth remembering, in order.
pub open spec fn memories_of(ms: Seq<MessageView>) -> Seq<Seq<char>>
    decreases ms.len(),
{
    if ms.len() == 0 {
        Seq::empty()
    } else {
        let prev = memories_of(ms.drop_last());
        let m = ms.last();
        if is_dialogue(m) && memory_outcome(m) == ScanOutcome::Found {
            prev.push(m.content)
        } else {
            prev
        }
    }
}

fn message_outcome(m: &Message) -> (r: ScanOutcome)
    ensures
        r == memory_outcome(m@),
{
    let lower = to_lowercase(m.content.as_str());
    match preference_scan(lower.as_str()) {
        ScanOutcome::NotFound => match project_scan(lower.as_str()) {
            ScanOutcome::NotFound => error_scan(lower.as_str()),
            other => other,
        },
        other => other,
    }
}

/// The user's and the assistant's messages that state a preference, knowledge
/// of the project, or an error met, in order.
pub fn extract_memories(messages: &[Message]) -> (r: Vec<String>)
    requires
        memories_searchable(msgs_view(messages@)),
    ensures
        string_views(r@) == memories_of(msgs_view(messages@)),
{
    match extract_memories_checked(messages) {
        Some(v) => v,
        None => {
            assert(false);
            Vec::new()
        },
    }
}

/// As [`extract_memories`], or `None` when the search on some message would
/// break.
pub fn extract_memories_checked(messages: &[Message]) -> (r: Option<Vec<String>>)
    ensures
        memories_searchable(msgs_view(messages@)) ==> (r matches Some(v) && string_views(v@) == memories_of(msgs_view(messages@))),
        !memories_searchable(msgs_view(messages@)) ==> r is None,
{
    let ghost ms = msgs_view(messages@);
    let mut out: Vec<String> = Vec::new();
    let mut i: usize = 0;
    while i < messages.len()
        invariant
            i <= messages.len(),
            ms == msgs_view(messages@),
            string_views(out@) == memories_of(ms.take(i as int)),
            forall|j: int| 0 <= j < i && is_dialogue(#[trigger] ms[j]) ==> memory_outcome(ms[j]) != ScanOutcome::Broken,
        decreases messages.len() - i,
    {
        let m = &messages[i];
        assert(ms[i as int] == m@);
        assert(ms.take(i + 1).drop_last() =~= ms.take(i as int));
        assert(ms.take(i + 1).last() == m@);
        let dialogue = match m.role {
            Role::User => true,
            Role::Assistant => true,
            _ => false,
        };
        if dialogue {
            match message_outcome(m) {
                ScanOutcome::Broken => {
                    return None;
                },
                ScanOutcome::Found => {
                    let ghost before = out@;
                    let s = owned(m.content.as_str());
                    out.push(s);
                    proof {
                        crate::text::lemma_string_views_push(before, s);
                    }
                },
                ScanOutcome::NotFound => {},
            }
        }
        i += 1;
    }
    assert(ms.take(messages.len() as int) =~= ms);
    Some(out)
}


/// Whose turn it is does not matter to what is remembered: giving a user's
/// message to the assistant, or the other way round, leaves the memories as
/// they were.
pub proof fn law_memories_ignore_speaker(ms: Seq<MessageView>, k: int, role: Role)
    requires
        0 <= k < ms.len(),
        is_dialogue(ms[k]),
        role == Role::User || role == Role::Assistant,
    ensures
        memories_of(ms.update(k, MessageView { role, ..ms[k] })) == memories_of(ms),
    decreases ms.len(),
{
    let ms2 = ms.update(k, MessageView { role, ..ms[k] });
    if k == ms.len() - 1 {
        assert(ms2.drop_last() =~= ms.drop_last());
    } else {
        law_memories_ignore_speaker(ms.drop_last(), k, role);
        assert(ms2.drop_last() =~= ms.drop_last().update(k, MessageView { role, ..ms[k] }));
    }
}

/// A message of the user or the assistant in which a keyword is found is
/// remembered after what came before it; any other message adds nothing.
pub proof fn law_found_messages_are_remembered(ms: Seq<MessageView>, m: MessageView)
    ensures
        is_dialogue(m) && memory_outcome(m) == ScanOutcome::Found ==> memories_of(ms.push(m)) == memories_of(ms).push(m.content),
        !(is_dialogue(m) && memory_outcome(m) == ScanOutcome::Found) ==> memories_of(ms.push(m)) == memories_of(ms),
        (m.role == Role::User || m.role == Role::Assistant) && memory_outcome(m) == ScanOutcome::Found
            ==> memories_of(ms.push(m)).last() == m.content,
{
    assert(ms.push(m).drop_last() =~= ms);
}

} // verus!
