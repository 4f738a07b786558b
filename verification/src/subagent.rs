//! Tasks handed to a subagent, the prompts it gets, and what is drawn from its
//! answer: the files it names and the findings it lists.
use vstd::prelude::*;
use crate::text::{
    chars_of, contains, contains_exec, is_whitespace, is_whitespace_exec, lemma_str_len, lines,
    lines_exec, owned, push_str, starts_with, starts_with_exec, string_of, string_views, trim,
    trim_exec, utf8_len, views,
};

verus! {

/// What a subagent may do.
#[derive(Debug, Clone, Copy, PartialEq, Eq, Structural)]
pub enum SubagentType {
    /// Only read and search.
    Explore,
    /// Use every tool.
    General,
}

/// A task for a subagent.
pub struct SubagentTask {
    pub task_type: SubagentType,
    pub prompt: String,
    pub context: String,
    pub max_iterations: usize,
}

/// What a subagent reported.
#[derive(Debug)]
pub struct SubagentResult {
    pub status: String,
    pub summary: String,
    pub files_touched: Vec<String>,
    pub findings: Vec<String>,
}

/// Steps a subagent may take.
pub const SUBAGENT_MAX_ITERATIONS: usize = 10;

impl SubagentTask {
    /// A read-only task.
    pub fn explore(prompt: &str, context: &str) -> (r: Self)
        ensures
            r.task_type == SubagentType::Explore,
            r.prompt@ == prompt@,
            r.context@ == context@,
            r.max_iterations == SUBAGENT_MAX_ITERATIONS,
    {
        SubagentTask {
            task_type: SubagentType::Explore,
            prompt: owned(prompt),
            context: owned(context),
            max_iterations: SUBAGENT_MAX_ITERATIONS,
        }
    }

    /// A task that may use every tool.
    pub fn general(prompt: &str, context: &str) -> (r: Self)
        ensures
            r.task_type == SubagentType::General,
            r.prompt@ == prompt@,
            r.context@ == context@,
            r.max_iterations == SUBAGENT_MAX_ITERATIONS,
    {
        SubagentTask {
            task_type: SubagentType::General,
            prompt: owned(prompt),
            context: owned(context),
            max_iterations: SUBAGENT_MAX_ITERATIONS,
        }
    }

    /// The prompt given to the subagent: the context first, when there is any.
    pub fn full_prompt(&self) -> (r: String)
        ensures
            r@ == if self.context@.len() > 0 {
                "Context:\n"@ + self.context@ + "\n\n"@ + self.prompt@
            } else {
                self.prompt@
            },
    {
        if self.context.as_str().is_empty() {
            owned(self.prompt.as_str())
        } else {
            let mut r = owned("Context:\n");
            push_str(&mut r, self.context.as_str());
            push_str(&mut r, "\n\n");
            push_str(&mut r, self.prompt.as_str());
            r
        }
    }
}

/// The system prompt of a subagent of the given type.
pub fn system_prompt(t: SubagentType) -> (r: &'static str)
    ensures
        t == SubagentType::Explore ==> r@ == "You are an explore subagent. You can ONLY read files and search code. You cannot write files or run shell commands. Return concise findings with file paths and line numbers. When done, provide a clear summary of what you found."@,
        t == SubagentType::General ==> r@ == "You are a general-purpose subagent. Complete the assigned task efficiently. When done, provide a clear summary of what you did and any files you touched."@,
{
    match t {
        SubagentType::Explore => "You are an explore subagent. You can ONLY read files and search code. You cannot write files or run shell commands. Return concise findings with file paths and line numbers. When done, provide a clear summary of what you found.",
        SubagentType::General => "You are a general-purpose subagent. Complete the assigned task efficiently. When done, provide a clear summary of what you did and any files you touched.",
    }
}

// ───────────────────────────── ordering of texts ─────────────────────────────

/// `a` comes before `b` in the order of `String`: character codes compared
/// from the left, a prefix first (UTF-8 keeps the order of code points, so
/// this is the byte order too).
pub open spec fn lex_lt(a: Seq<char>, b: Seq<char>) -> bool
    decreases a.len(),
{
    if a.len() == 0 {
        b.len() > 0
    } else if b.len() == 0 {
        false
    } else if a[0] != b[0] {
        (a[0] as int) < (b[0] as int)
    } else {
        lex_lt(a.drop_first(), b.drop_first())
    }
}

pub(crate) proof fn lemma_lex_irreflexive(a: Seq<char>)
    ensures
        !lex_lt(a, a),
    decreases a.len(),
{
    if a.len() > 0 {
        lemma_lex_irreflexive(a.drop_first());
    }
}

pub(crate) proof fn lemma_lex_total(a: Seq<char>, b: Seq<char>)
    ensures
        a == b || lex_lt(a, b) || lex_lt(b, a),
    decreases a.len(),
{
    if a.len() > 0 && b.len() > 0 {
        if a[0] == b[0] {
            lemma_lex_total(a.drop_first(), b.drop_first());
            if a.drop_first() == b.drop_first() {
                assert(a =~= seq![a[0]] + a.drop_first());
                assert(b =~= seq![b[0]] + b.drop_first());
            }
        }
    } else if a.len() == 0 && b.len() == 0 {
        assert(a =~= b);
    }
}

pub(crate) proof fn lemma_lex_asym(a: Seq<char>, b: Seq<char>)
    ensures
        lex_lt(a, b) ==> !lex_lt(b, a),
    decreases a.len(),
{
    if a.len() > 0 && b.len() > 0 && a[0] == b[0] {
        lemma_lex_asym(a.drop_first(), b.drop_first());
    }
}

pub(crate) proof fn lemma_lex_trans(a: Seq<char>, b: Seq<char>, c: Seq<char>)
    requires
        lex_lt(a, b),
        lex_lt(b, c),
    ensures
        lex_lt(a, c),
    decreases a.len(),
{
    if a.len() > 0 && b.len() > 0 && c.len() > 0 && a[0] == b[0] && b[0] == c[0] {
        lemma_lex_trans(a.drop_first(), b.drop_first(), c.drop_first());
    }
}

/// Whether `a` comes before `b`.
pub fn lex_less(a: &[char], b: &[char]) -> (r: bool)
    ensures
        r == lex_lt(a@, b@),
{
    let mut i: usize = 0;
    assert(a@.skip(0) =~= a@);
    assert(b@.skip(0) =~= b@);
    assert(a@.take(0) =~= b@.take(0));
    while i < a.len() && i < b.len()
        invariant
            i <= a.len(),
            i <= b.len(),
            a@.take(i as int) == b@.take(i as int),
            lex_lt(a@, b@) == lex_lt(a@.skip(i as int), b@.skip(i as int)),
        decreases a.len() - i,
    {
        let ghost sa = a@.skip(i as int);
        let ghost sb = b@.skip(i as int);
        assert(sa[0] == a@[i as int] && sb[0] == b@[i as int]);
        if a[i] != b[i] {
            return a[i] < b[i];
        }
        assert(sa.drop_first() =~= a@.skip(i + 1));
        assert(sb.drop_first() =~= b@.skip(i + 1));
        assert(a@.take(i + 1) =~= a@.take(i as int).push(a@[i as int]));
        assert(b@.take(i + 1) =~= b@.take(i as int).push(b@[i as int]));
        i += 1;
    }
    assert(a@.skip(i as int).len() == 0 || b@.skip(i as int).len() == 0);
    i < b.len()
}

/// Strictly increasing in the order of `String`: sorted, with no repeats.
pub open spec fn strictly_sorted(v: Seq<Seq<char>>) -> bool {
    forall|i: int, j: int| 0 <= i < j < v.len() ==> lex_lt(#[trigger] v[i], #[trigger] v[j])
}

/// Inserts `x` into a strictly sorted list unless it is there already.
fn insert_sorted(v: &mut Vec<String>, x: String)
    requires
        strictly_sorted(string_views(old(v)@)),
    ensures
        strictly_sorted(string_views(final(v)@)),
        forall|y: Seq<char>| string_views(final(v)@).contains(y) <==> (string_views(old(v)@).contains(y) || y == x@),
{
    let xs = chars_of(x.as_str());
    let ghost before = string_views(v@);
    let mut p: usize = 0;
    while p < v.len()
        invariant_except_break
            p <= v.len(),
            string_views(v@) == before,
            xs@ == x@,
            strictly_sorted(before),
            forall|i: int| 0 <= i < p ==> lex_lt(#[trigger] before[i], x@),
        ensures
            p <= v.len(),
            string_views(v@) == before,
            xs@ == x@,
            strictly_sorted(before),
            forall|i: int| 0 <= i < p ==> lex_lt(#[trigger] before[i], x@),
            p < v.len() ==> !lex_lt(before[p as int], x@),
        decreases v.len() - p,
    {
        let e = chars_of(v[p].as_str());
        assert(before[p as int] == v@[p as int]@);
        if !lex_less(e.as_slice(), xs.as_slice()) {
            break;
        }
        p += 1;
    }
    if p < v.len() {
        let e = chars_of(v[p].as_str());
        assert(before[p as int] == e@);
        if crate::text::chars_eq(e.as_slice(), xs.as_slice()) {
            assert(forall|y: Seq<char>| string_views(v@).contains(y) <==> (before.contains(y) || y == x@));
            return ;
        }
        proof {
            lemma_lex_total(e@, x@);
        }
    }
    proof {
        assert forall|i: int| p <= i < before.len() implies lex_lt(x@, #[trigger] before[i]) by {
            lemma_lex_total(before[p as int], x@);
            if i > p {
                lemma_lex_trans(x@, before[p as int], before[i]);
            }
        }
    }
    let ghost old_v = v@;
    v.insert(p, x);
    let ghost after = string_views(v@);
    assert(after =~= before.insert(p as int, x@));
    assert forall|i: int, j: int| 0 <= i < j < after.len() implies lex_lt(#[trigger] after[i], #[trigger] after[j]) by {
        if j < p {
        } else if j == p {
        } else if i < p {
            lemma_lex_trans(after[i], x@, after[j]);
        } else if i == p {
        } else {
        }
    }
    assert forall|y: Seq<char>| after.contains(y) <==> (before.contains(y) || y == x@) by {
        if after.contains(y) {
            let k = choose|k: int| 0 <= k < after.len() && after[k] == y;
            if k < p {
                assert(before[k] == y);
            } else if k > p {
                assert(before[k - 1] == y);
            }
        }
        if before.contains(y) {
            let k = choose|k: int| 0 <= k < before.len() && before[k] == y;
            if k < p {
                assert(after[k] == y);
            } else {
                assert(after[k + 1] == y);
            }
        }
        if y == x@ {
            assert(after[p as int] == y);
        }
    }
}

// ───────────────────────────── files named in an answer ─────────────────────────────

/// `s` up to its first white space.
pub open spec fn first_word(s: Seq<char>) -> Seq<char>
    decreases s.len(),
{
    if s.len() == 0 || is_whitespace(s[0]) {
        Seq::empty()
    } else {
        seq![s[0]] + first_word(s.drop_first())
    }
}

/// `s` without the copies of `c` at its end (`str::trim_end_matches` with a character).
pub open spec fn trim_end_char(s: Seq<char>, c: char) -> Seq<char>
    decreases s.len(),
{
    if s.len() > 0 && s.last() == c {
        trim_end_char(s.drop_last(), c)
    } else {
        s
    }
}

/// A trimmed line that looks like it names a file.
pub open spec fn names_file(t: Seq<char>) -> bool {
    starts_with(t, "src/"@) || starts_with(t, "crates/"@) || starts_with(t, "./"@) || contains(t, ".rs"@)
        || contains(t, ".ts"@) || contains(t, ".py"@)
}

/// The path a line of an answer names, if any: the first word of the trimmed
/// line, without trailing colons and then commas, when it is not empty and
/// shorter than 200 bytes.
pub open spec fn path_of_line(line: Seq<char>) -> Option<Seq<char>> {
    let t = trim(line);
    if names_file(t) {
        let p = trim_end_char(trim_end_char(first_word(t), ':'), ',');
        if p.len() > 0 && utf8_len(p) < 200 {
            Some(p)
        } else {
            None
        }
    } else {
        None
    }
}

/// The paths the lines name, in order, repeats included.
pub open spec fn paths_of(ls: Seq<Seq<char>>) -> Seq<Seq<char>>
    decreases ls.len(),
{
    if ls.len() == 0 {
        Seq::empty()
    } else {
        match path_of_line(ls.last()) {
            Some(p) => paths_of(ls.drop_last()).push(p),
            None => paths_of(ls.drop_last()),
        }
    }
}

/// `v` without the copies of `c` at its end.
fn trim_end_char_exec(v: &[char], c: char) -> (r: Vec<char>)
    ensures
        r@ == trim_end_char(v@, c),
{
    let mut k = v.len();
    assert(v@.take(k as int) =~= v@);
    while k > 0 && v[k - 1] == c
        invariant
            k <= v.len(),
            trim_end_char(v@, c) == trim_end_char(v@.take(k as int), c),
        decreases k,
    {
        assert(v@.take(k as int).drop_last() =~= v@.take(k - 1));
        k -= 1;
    }
    assert(v@.take(k as int) =~= v@.subrange(0, k as int));
    crate::text::slice_vec(v, 0, k)
}

/// The first word of `v`.
fn first_word_exec(v: &[char]) -> (r: Vec<char>)
    ensures
        r@ == first_word(v@),
{
    let mut k: usize = 0;
    assert(v@.skip(0) =~= v@);
    assert(v@.take(0) + v@ =~= v@);
    while k < v.len() && !is_whitespace_exec(v[k])
        invariant
            k <= v.len(),
            first_word(v@) == v@.take(k as int) + first_word(v@.skip(k as int)),
        decreases v.len() - k,
    {
        let ghost rest = v@.skip(k as int);
        assert(rest[0] == v@[k as int]);
        assert(rest.drop_first() =~= v@.skip(k + 1));
        assert(v@.take(k + 1) =~= v@.take(k as int).push(v@[k as int]));
        assert(v@.take(k as int) + (seq![v@[k as int]] + first_word(v@.skip(k + 1))) =~= v@.take(k + 1)
            + first_word(v@.skip(k + 1)));
        k += 1;
    }
    assert(first_word(v@.skip(k as int)) == Seq::<char>::empty());
    assert(v@.take(k as int) + Seq::<char>::empty() =~= v@.take(k as int));
    assert(v@.take(k as int) =~= v@.subrange(0, k as int));
    crate::text::slice_vec(v, 0, k)
}

/// The path a line names, if any.
fn path_of_line_exec(line: &[char]) -> (r: Option<String>)
    ensures
        match r {
            Some(p) => path_of_line(line@) == Some(p@),
            None => path_of_line(line@) is None,
        },
{
    let t = trim_exec(line);
    let src = chars_of("src/");
    let crates = chars_of("crates/");
    let dot = chars_of("./");
    let rs = chars_of(".rs");
    let ts = chars_of(".ts");
    let py = chars_of(".py");
    let named = starts_with_exec(t.as_slice(), src.as_slice()) || starts_with_exec(t.as_slice(), crates.as_slice())
        || starts_with_exec(t.as_slice(), dot.as_slice()) || contains_exec(t.as_slice(), rs.as_slice())
        || contains_exec(t.as_slice(), ts.as_slice()) || contains_exec(t.as_slice(), py.as_slice());
    if !named {
        return None;
    }
    let w = first_word_exec(t.as_slice());
    let a = trim_end_char_exec(w.as_slice(), ':');
    let b = trim_end_char_exec(a.as_slice(), ',');
    if b.len() == 0 {
        return None;
    }
    let p = string_of(b.as_slice());
    let ps = p.as_str();
    let bytes = ps.as_bytes().len();
    proof {
        lemma_str_len(ps);
    }
    if bytes < 200 {
        Some(p)
    } else {
        None
    }
}

/// The files an answer names, sorted and without repeats: the first word of
/// each line that starts like a path or mentions a `.rs`, `.ts` or `.py` file.
pub fn extract_file_paths(text: &str) -> (r: Vec<String>)
    ensures
        strictly_sorted(string_views(r@)),
        forall|p: Seq<char>| string_views(r@).contains(p) <==> paths_of(lines(text@)).contains(p),
{
    let cs = chars_of(text);
    let ls = lines_exec(cs.as_slice());
    let ghost lv = views(ls@);
    let mut paths: Vec<String> = Vec::new();
    let mut i: usize = 0;
    while i < ls.len()
        invariant
            i <= ls.len(),
            lv == views(ls@),
            lv == lines(text@),
            strictly_sorted(string_views(paths@)),
            forall|p: Seq<char>| string_views(paths@).contains(p) <==> paths_of(lv.take(i as int)).contains(p),
        decreases ls.len() - i,
    {
        assert(lv.take(i + 1).drop_last() =~= lv.take(i as int));
        assert(lv.take(i + 1).last() == ls@[i as int]@);
        match path_of_line_exec(ls[i].as_slice()) {
            Some(p) => {
                let ghost pv = p@;
                let ghost prev = paths_of(lv.take(i as int));
                insert_sorted(&mut paths, p);
                assert forall|q: Seq<char>| string_views(paths@).contains(q) <==> paths_of(lv.take(i + 1)).contains(q) by {
                    assert(paths_of(lv.take(i + 1)) == prev.push(pv));
                    if prev.push(pv).contains(q) {
                        let k = choose|k: int| 0 <= k < prev.push(pv).len() && prev.push(pv)[k] == q;
                        if k < prev.len() {
                            assert(prev[k] == q);
                        }
                    }
                    if prev.contains(q) {
                        let k = choose|k: int| 0 <= k < prev.len() && prev[k] == q;
                        assert(prev.push(pv)[k] == q);
                    }
                    if q == pv {
                        assert(prev.push(pv)[prev.len() as int] == q);
                    }
                }
            },
            None => {},
        }
        i += 1;
    }
    assert(lv.take(ls.len() as int) =~= lv);
    paths
}

// ───────────────────────────── findings ─────────────────────────────

/// The finding a line lists, if it is a bullet: the trimmed text after `- `
/// or `* `.
pub open spec fn finding_of(line: Seq<char>) -> Option<Seq<char>> {
    let t = trim(line);
    if starts_with(t, "- "@) || starts_with(t, "* "@) {
        Some(trim(t.skip(2)))
    } else {
        None
    }
}

/// The findings the lines list, in order.
pub open spec fn findings_of(ls: Seq<Seq<char>>) -> Seq<Seq<char>>
    decreases ls.len(),
{
    if ls.len() == 0 {
        Seq::empty()
    } else {
        match finding_of(ls.last()) {
            Some(f) => findings_of(ls.drop_last()).push(f),
            None => findings_of(ls.drop_last()),
        }
    }
}

/// No line of `text`, trimmed, starts with the bullet `• `, which the
/// byte-wise cut after two bytes cannot handle.
pub open spec fn no_round_bullets(text: Seq<char>) -> bool {
    forall|i: int| 0 <= i < lines(text).len() ==> !starts_with(trim(#[trigger] lines(text)[i]), "• "@)
}

/// Whether no line of `text` starts with the bullet `• `.
pub fn has_no_round_bullets(text: &str) -> (r: bool)
    ensures
        r == no_round_bullets(text@),
{
    let cs = chars_of(text);
    let ls = lines_exec(cs.as_slice());
    let ghost lv = views(ls@);
    let bullet = chars_of("• ");
    let mut i: usize = 0;
    while i < ls.len()
        invariant
            i <= ls.len(),
            lv == views(ls@),
            lv == lines(text@),
            bullet@ == "• "@,
            forall|j: int| 0 <= j < i ==> !starts_with(trim(#[trigger] lv[j]), "• "@),
        decreases ls.len() - i,
    {
        let t = trim_exec(ls[i].as_slice());
        assert(lv[i as int] == ls@[i as int]@);
        if starts_with_exec(t.as_slice(), bullet.as_slice()) {
            return false;
        }
        i += 1;
    }
    true
}

/// The findings an answer lists: the text of each line that is a bullet.
pub fn extract_findings(text: &str) -> (r: Vec<String>)
    requires
        no_round_bullets(text@),
    ensures
        string_views(r@) == findings_of(lines(text@)),
{
    let cs = chars_of(text);
    let ls = lines_exec(cs.as_slice());
    let ghost lv = views(ls@);
    let dash = chars_of("- ");
    let star = chars_of("* ");
    let mut out: Vec<String> = Vec::new();
    let mut i: usize = 0;
    while i < ls.len()
        invariant
            i <= ls.len(),
            lv == views(ls@),
            lv == lines(text@),
            dash@ == "- "@,
            star@ == "* "@,
            string_views(out@) == findings_of(lv.take(i as int)),
        decreases ls.len() - i,
    {
        assert(lv.take(i + 1).drop_last() =~= lv.take(i as int));
        assert(lv.take(i + 1).last() == ls@[i as int]@);
        let t = trim_exec(ls[i].as_slice());
        proof {
            reveal_strlit("- ");
            reveal_strlit("* ");
        }
        if starts_with_exec(t.as_slice(), dash.as_slice()) || starts_with_exec(t.as_slice(), star.as_slice()) {
            let rest = crate::text::slice_vec(t.as_slice(), 2, t.len());
            let f = trim_exec(rest.as_slice());
            assert(t@.subrange(2, t@.len() as int) =~= t@.skip(2));
            let ghost before = out@;
            let s = string_of(f.as_slice());
            out.push(s);
            proof {
                crate::text::lemma_string_views_push(before, s);
            }
        }
        i += 1;
    }
    assert(lv.take(ls.len() as int) =~= lv);
    out
}

/// The report of a subagent that finished: its answer, with the files it names
/// and the findings it lists.
pub fn success_result(response: String) -> (r: SubagentResult)
    requires
        no_round_bullets(response@),
    ensures
        r.status@ == "success"@,
        r.summary@ == response@,
        strictly_sorted(string_views(r.files_touched@)),
        forall|p: Seq<char>| string_views(r.files_touched@).contains(p) <==> paths_of(lines(response@)).contains(p),
        string_views(r.findings@) == findings_of(lines(response@)),
{
    let files = extract_file_paths(response.as_str());
    let findings = extract_findings(response.as_str());
    SubagentResult { status: owned("success"), summary: response, files_touched: files, findings }
}

/// The report of a subagent that failed with the error `error`.
pub fn failure_result(error: &str) -> (r: SubagentResult)
    ensures
        r.status@ == "failed"@,
        r.summary@ == "Subagent failed: "@ + error@,
        r.files_touched@.len() == 0,
        r.findings@.len() == 0,
{
    let mut summary = owned("Subagent failed: ");
    push_str(&mut summary, error);
    SubagentResult { status: owned("failed"), summary, files_touched: Vec::new(), findings: Vec::new() }
}

} // verus!
