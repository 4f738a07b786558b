//! The line-mode front end: colours for the terminal, the `@` references
//! that bring a file or a directory into a message, completion and hints of
//! commands and paths, and the names of the installed skills.
use vstd::prelude::*;
use crate::subagent::lex_lt;
use crate::text::{
    chars_of, contains, contains_exec, find_char_from, fit_count, is_whitespace, is_whitespace_exec, owned, push_char, push_str,
    rfind_char_below, rfind_char_exec, slice_vec, starts_with, starts_with_exec, str_starts_with, string_of,
    string_views, str_eq, trim, trim_start, utf8_len,
};
use crate::tools::{sort_texts, sorted_texts};
use crate::tui::input::{lemma_fit_prefix, on_boundary};

verus! {

// ───────────────────────────── colours ─────────────────────────────

/// `s` between an escape that starts the style `code` and one that resets it.
pub open spec fn styled_text(code: Seq<char>, s: Seq<char>) -> Seq<char> {
    "\x1b["@ + code + "m"@ + s + "\x1b[0m"@
}

fn wrap_style(code: &str, s: &str) -> (r: String)
    ensures
        r@ == styled_text(code@, s@),
{
    let mut r = owned("\x1b[");
    push_str(&mut r, code);
    push_str(&mut r, "m");
    push_str(&mut r, s);
    push_str(&mut r, "\x1b[0m");
    r
}

/// `s` in bold.
pub fn bold(s: &str) -> (r: String)
    ensures
        r@ == styled_text("1"@, s@),
{
    wrap_style("1", s)
}

/// `s` in bold cyan.
pub fn cyan(s: &str) -> (r: String)
    ensures
        r@ == styled_text("1;36"@, s@),
{
    wrap_style("1;36", s)
}

/// `s` in bold green.
pub fn green(s: &str) -> (r: String)
    ensures
        r@ == styled_text("1;32"@, s@),
{
    wrap_style("1;32", s)
}

/// `s` in bold yellow.
pub fn yellow(s: &str) -> (r: String)
    ensures
        r@ == styled_text("1;33"@, s@),
{
    wrap_style("1;33", s)
}

/// `s` in bold red.
pub fn red(s: &str) -> (r: String)
    ensures
        r@ == styled_text("1;31"@, s@),
{
    wrap_style("1;31", s)
}

/// `s` dimmed.
pub fn dim(s: &str) -> (r: String)
    ensures
        r@ == styled_text("2"@, s@),
{
    wrap_style("2", s)
}

/// `s` in italics.
pub fn italic(s: &str) -> (r: String)
    ensures
        r@ == styled_text("3"@, s@),
{
    wrap_style("3", s)
}

// ───────────────────────────── @ references ─────────────────────────────

/// The end of the run of characters of `cs` that are not white space, from
/// index `j` on.
pub open spec fn run_end(cs: Seq<char>, j: int) -> int
    decreases cs.len() - j,
{
    if j < 0 || j >= cs.len() || is_whitespace(cs[j]) {
        j
    } else {
        run_end(cs, j + 1)
    }
}

proof fn lemma_run_end(cs: Seq<char>, j: int)
    requires
        0 <= j <= cs.len(),
    ensures
        j <= run_end(cs, j) <= cs.len(),
    decreases cs.len() - j,
{
    if j < cs.len() && !is_whitespace(cs[j]) {
        lemma_run_end(cs, j + 1);
    }
}

/// Where the reference at index `i` ends: an `@` followed by at least one
/// character that is not white space names a path up to the next white space.
pub open spec fn reference_at(cs: Seq<char>, i: int) -> Option<int> {
    if 0 <= i < cs.len() && cs[i] == '@' && run_end(cs, i + 1) > i + 1 {
        Some(run_end(cs, i + 1))
    } else {
        None
    }
}

/// The end of the reference at index `i` of `cs`, if one starts there.
pub fn reference_end(cs: &[char], i: usize) -> (r: Option<usize>)
    ensures
        match r {
            Some(e) => reference_at(cs@, i as int) == Some(e as int),
            None => reference_at(cs@, i as int) is None,
        },
{
    if i >= cs.len() || cs[i] != '@' {
        return None;
    }
    let mut j = i + 1;
    while j < cs.len() && !is_whitespace_exec(cs[j])
        invariant
            i + 1 <= j <= cs.len(),
            run_end(cs@, (i + 1) as int) == run_end(cs@, j as int),
        decreases cs.len() - j,
    {
        j += 1;
    }
    if j > i + 1 {
        Some(j)
    } else {
        None
    }
}

/// What a referenced path turned out to be.
#[derive(Debug, Clone)]
pub enum RefTarget {
    /// A file that was read: its name and its content.
    File(String, String),
    /// A file that could not be read, and why.
    Unreadable(String),
    /// A directory, with each entry's name and whether it is a directory,
    /// in the order they were read.
    Dir(Vec<(String, bool)>),
    /// Neither a file nor a directory.
    Missing,
}

/// The entries of a directory as a reference shows them: those not hidden,
/// one per line, directories with a trailing slash.
pub open spec fn dir_listing(entries: Seq<(Seq<char>, bool)>) -> Seq<char>
    decreases entries.len(),
{
    if entries.len() == 0 {
        Seq::empty()
    } else {
        let prev = dir_listing(entries.drop_last());
        let (name, is_dir) = entries.last();
        if starts_with(name, "."@) {
            prev
        } else if is_dir {
            prev + name + "/\n"@
        } else {
            prev + name + "\n"@
        }
    }
}

/// The values of directory entries.
pub open spec fn entries_view(v: Seq<(String, bool)>) -> Seq<(Seq<char>, bool)> {
    v.map_values(|e: (String, bool)| (e.0@, e.1))
}

/// What a reference to `path` brings into the message.
pub open spec fn reference_block(path: Seq<char>, t: RefTarget) -> Option<Seq<char>> {
    match t {
        RefTarget::File(name, content) => Some("[File: "@ + name@ + "]\n"@ + content@ + "\n[End File]\n"@),
        RefTarget::Unreadable(e) => Some("[Error reading "@ + path + ": "@ + e@ + "]"@),
        RefTarget::Dir(entries) => Some(
            "[Directory: "@ + path + "]\n"@ + dir_listing(entries_view(entries@)) + "[End Directory]\n"@,
        ),
        RefTarget::Missing => None,
    }
}

/// One step of expanding the references of `cs` at index `i`: a reference
/// whose path was found is replaced by what it brings, and the expansion
/// goes on after it; any other character is kept.
pub open spec fn at_step_spec(cs: Seq<char>, i: int, target: Option<RefTarget>) -> (Seq<char>, int) {
    match reference_at(cs, i) {
        Some(end) => match target {
            Some(t) => match reference_block(cs.subrange(i + 1, end), t) {
                Some(b) => (b, end),
                None => (seq![cs[i]], i + 1),
            },
            None => (seq![cs[i]], i + 1),
        },
        None => (seq![cs[i]], i + 1),
    }
}

/// The listing of a directory's entries.
fn listing(entries: &Vec<(String, bool)>) -> (r: String)
    ensures
        r@ == dir_listing(entries_view(entries@)),
{
    let ghost ev = entries_view(entries@);
    let mut r = String::new();
    let mut i: usize = 0;
    while i < entries.len()
        invariant
            i <= entries.len(),
            ev == entries_view(entries@),
            r@ == dir_listing(ev.take(i as int)),
        decreases entries.len() - i,
    {
        let (ref name, is_dir) = entries[i];
        assert(ev.take(i + 1).drop_last() =~= ev.take(i as int));
        assert(ev.take(i + 1).last() == (name@, is_dir));
        if !str_starts_with(name.as_str(), ".") {
            push_str(&mut r, name.as_str());
            if is_dir {
                push_str(&mut r, "/\n");
            } else {
                push_str(&mut r, "\n");
            }
        }
        i += 1;
    }
    assert(ev.take(entries.len() as int) =~= ev);
    r
}

/// Expands the references of a message one step at index `i`, `target`
/// being what the path of the reference there turned out to be (when one
/// starts there): the text to add and the index to go on from.
pub fn at_step(cs: &[char], i: usize, target: Option<RefTarget>) -> (r: (String, usize))
    requires
        i < cs.len(),
    ensures
        (r.0@, r.1 as int) == at_step_spec(cs@, i as int, target),
{
    let keep = (string_of(slice_vec(cs, i, i + 1).as_slice()), i + 1);
    assert(cs@.subrange(i as int, i + 1) =~= seq![cs@[i as int]]);
    match reference_end(cs, i) {
        Some(end) => {
            proof {
                lemma_run_end(cs@, i + 1);
            }
            let path = string_of(slice_vec(cs, i + 1, end).as_slice());
            match target {
                Some(RefTarget::File(name, content)) => {
                    let mut b = owned("[File: ");
                    push_str(&mut b, name.as_str());
                    push_str(&mut b, "]\n");
                    push_str(&mut b, content.as_str());
                    push_str(&mut b, "\n[End File]\n");
                    (b, end)
                },
                Some(RefTarget::Unreadable(e)) => {
                    let mut b = owned("[Error reading ");
                    push_str(&mut b, path.as_str());
                    push_str(&mut b, ": ");
                    push_str(&mut b, e.as_str());
                    push_str(&mut b, "]");
                    (b, end)
                },
                Some(RefTarget::Dir(entries)) => {
                    let mut b = owned("[Directory: ");
                    push_str(&mut b, path.as_str());
                    push_str(&mut b, "]\n");
                    let l = listing(&entries);
                    push_str(&mut b, l.as_str());
                    push_str(&mut b, "[End Directory]\n");
                    (b, end)
                },
                _ => keep,
            }
        },
        None => keep,
    }
}


// ───────────────────────────── completion ─────────────────────────────

/// The commands that completion offers.
pub open spec fn command_names() -> Seq<Seq<char>> {
    seq![
        "/help"@, "/model"@, "/skills"@, "/skill"@, "/clear"@, "/memory"@, "/quit"@, "/sessions"@, "/new"@,
        "/session"@, "/mcp"@, "/plan"@, "/brainstorm"@,
    ]
}

/// Completes and hints commands, skills and paths on the input line.
pub struct AgentHelper {
    commands: Vec<String>,
    skills: Vec<String>,
}

/// The value of an [`AgentHelper`]: its commands and the skills it knows.
pub ghost struct HelperView {
    pub commands: Seq<Seq<char>>,
    pub skills: Seq<Seq<char>>,
}

impl View for AgentHelper {
    type V = HelperView;

    closed spec fn view(&self) -> HelperView {
        HelperView { commands: string_views(self.commands@), skills: string_views(self.skills@) }
    }
}

/// Where the word under a cursor starts (in characters): after the last
/// space before the cursor, which stands after `k` characters.
pub open spec fn word_start(cs: Seq<char>, k: int) -> int {
    match rfind_char_below(cs.take(k), ' ', k) {
        Some(j) => j + 1,
        None => 0,
    }
}

/// The items that start with `prefix`, each as a pair of what is shown,
/// `before` and the item, and what replaces the word, the same and `after`.
pub open spec fn matching(items: Seq<Seq<char>>, prefix: Seq<char>, before: Seq<char>, after: Seq<char>) -> Seq<(Seq<char>, Seq<char>)>
    decreases items.len(),
{
    if items.len() == 0 {
        Seq::empty()
    } else {
        let prev = matching(items.drop_last(), prefix, before, after);
        let x = items.last();
        if starts_with(x, prefix) {
            prev.push((before + x, before + x + after))
        } else {
            prev
        }
    }
}

/// A path prefix cut into the directory to list (`.` when it has no slash)
/// and the start of the names to offer.
pub open spec fn split_dir(prefix: Seq<char>) -> (Seq<char>, Seq<char>) {
    match rfind_char_below(prefix, '/', prefix.len() as int) {
        Some(p) => (prefix.take(p + 1), prefix.skip(p + 1)),
        None => ("."@, prefix),
    }
}

/// `s` without its trailing slashes.
pub open spec fn trim_slashes(s: Seq<char>) -> Seq<char>
    decreases s.len(),
{
    if s.len() > 0 && s.last() == '/' {
        trim_slashes(s.drop_last())
    } else {
        s
    }
}

/// The paths offered from the entries of `dir` whose names start with
/// `partial`: the name inside `dir` (just the name for `.`), directories with
/// a trailing slash.
pub open spec fn dir_paths(dir: Seq<char>, partial: Seq<char>, entries: Seq<(Seq<char>, bool)>) -> Seq<Seq<char>>
    decreases entries.len(),
{
    if entries.len() == 0 {
        Seq::empty()
    } else {
        let prev = dir_paths(dir, partial, entries.drop_last());
        let (name, is_dir) = entries.last();
        if starts_with(name, partial) {
            let full = if dir == "."@ { name } else { trim_slashes(dir) + "/"@ + name };
            prev.push(if is_dir { full + "/"@ } else { full })
        } else {
            prev
        }
    }
}

/// What completion offers for the word `w`: commands for a word starting
/// with `/` (skills after `/skill `), paths for one starting with `@`
/// (`entries` being what the directory to list holds), nothing otherwise.
pub open spec fn candidates(h: HelperView, w: Seq<char>, entries: Seq<(Seq<char>, bool)>) -> Seq<(Seq<char>, Seq<char>)> {
    if starts_with(w, "/"@) {
        if starts_with(w, "/skill "@) {
            let prefix = w.skip(7);
            if starts_with(prefix, "use "@) {
                matching(h.skills, prefix.skip(4), "/skill use "@, " "@)
            } else {
                matching(h.skills, prefix, "/skill "@, Seq::empty()).push(("/skill use"@, "/skill use "@))
            }
        } else {
            matching(h.commands, w, Seq::empty(), Seq::empty())
        }
    } else if starts_with(w, "@"@) {
        let (dir, partial) = split_dir(w.skip(1));
        matching(dir_paths(dir, partial, entries), Seq::empty(), "@"@, Seq::empty())
    } else {
        Seq::empty()
    }
}

/// The first command that extends the word `w` without being it: what it
/// adds after `w`.
pub open spec fn hint_from(commands: Seq<Seq<char>>, w: Seq<char>, i: int) -> Option<Seq<char>>
    decreases commands.len() - i,
{
    if i < 0 || i >= commands.len() {
        None
    } else if starts_with(commands[i], w) && commands[i] != w {
        Some(commands[i].skip(w.len() as int))
    } else {
        hint_from(commands, w, i + 1)
    }
}

/// Adds the matching items to `out`.
fn push_matching(out: &mut Vec<(String, String)>, items: &Vec<String>, prefix: &[char], before: &str, after: &str)
    ensures
        pairs_view(final(out)@) == pairs_view(old(out)@) + matching(string_views(items@), prefix@, before@, after@),
{
    let ghost base = pairs_view(out@);
    let ghost iv = string_views(items@);
    let mut i: usize = 0;
    while i < items.len()
        invariant
            i <= items.len(),
            iv == string_views(items@),
            pairs_view(out@) == base + matching(iv.take(i as int), prefix@, before@, after@),
        decreases items.len() - i,
    {
        let x = items[i].as_str();
        assert(iv.take(i + 1).drop_last() =~= iv.take(i as int));
        assert(iv.take(i + 1).last() == x@);
        let xs = chars_of(x);
        if starts_with_exec(xs.as_slice(), prefix) {
            let mut shown = owned(before);
            push_str(&mut shown, x);
            let mut repl = owned(before);
            push_str(&mut repl, x);
            push_str(&mut repl, after);
            let ghost prev = out@;
            out.push((shown, repl));
            assert(pairs_view(out@) =~= pairs_view(prev).push((before@ + x@, before@ + x@ + after@)));
        }
        i += 1;
    }
    assert(iv.take(items.len() as int) =~= iv);
}

/// The values of pairs of texts.
pub open spec fn pairs_view(v: Seq<(String, String)>) -> Seq<(Seq<char>, Seq<char>)> {
    v.map_values(|p: (String, String)| (p.0@, p.1@))
}

/// The characters before the cursor, which is a byte offset on a boundary.
fn before_cursor(line: &str, pos: usize) -> (r: (Vec<char>, usize))
    requires
        on_boundary(line@, pos as nat),
    ensures
        r.1 == fit_count(line@, pos as nat),
        r.1 <= line@.len(),
        r.0@ == line@,
        utf8_len(line@.take(r.1 as int)) == pos,
{
    let cs = chars_of(line);
    let k = crate::tui::input::char_index(&cs, pos);
    (cs, k)
}

/// Where the word under the cursor starts, in characters and in bytes.
fn word_bounds(cs: &Vec<char>, k: usize) -> (r: (usize, usize))
    requires
        k <= cs.len(),
    ensures
        r.0 == word_start(cs@, k as int),
        r.0 <= k,
        r.1 == utf8_len(cs@.take(r.0 as int)),
{
    let front = slice_vec(cs.as_slice(), 0, k);
    assert(front@ =~= cs@.take(k as int));
    proof {
        lemma_rfind_char_below_range(front@, ' ', front@.len() as int);
    }
    let s = match rfind_char_exec(front.as_slice(), ' ') {
        Some(j) => j + 1,
        None => 0,
    };
    let head = string_of(slice_vec(cs.as_slice(), 0, s).as_slice());
    let hs = head.as_str();
    proof {
        crate::text::lemma_str_len(hs);
        assert(cs@.subrange(0, s as int) =~= cs@.take(s as int));
    }
    (s, hs.as_bytes().len())
}

proof fn lemma_rfind_char_below_range(s: Seq<char>, c: char, k: int)
    ensures
        match rfind_char_below(s, c, k) {
            Some(j) => 0 <= j < k && j < s.len(),
            None => true,
        },
    decreases k,
{
    if 0 < k <= s.len() && s[k - 1] != c {
        lemma_rfind_char_below_range(s, c, k - 1);
    }
}

impl AgentHelper {
    /// A helper with the commands and the given skills.
    pub fn new(skills: Vec<String>) -> (r: Self)
        ensures
            r@.commands == command_names(),
            r@.skills == string_views(skills@),
    {
        let mut commands: Vec<String> = Vec::new();
        commands.push(owned("/help"));
        commands.push(owned("/model"));
        commands.push(owned("/skills"));
        commands.push(owned("/skill"));
        commands.push(owned("/clear"));
        commands.push(owned("/memory"));
        commands.push(owned("/quit"));
        commands.push(owned("/sessions"));
        commands.push(owned("/new"));
        commands.push(owned("/session"));
        commands.push(owned("/mcp"));
        commands.push(owned("/plan"));
        commands.push(owned("/brainstorm"));
        let r = AgentHelper { commands, skills };
        assert(string_views(r.commands@) =~= command_names());
        r
    }

    /// The directory to list for completing the word under the cursor, when
    /// it is a path (`@...`).
    pub fn dir_to_list(line: &str, pos: usize) -> (r: Option<String>)
        requires
            on_boundary(line@, pos as nat),
        ensures
            ({
                let k = fit_count(line@, pos as nat) as int;
                let w = line@.subrange(word_start(line@, k), k);
                match r {
                    Some(d) => starts_with(w, "@"@) && d@ == split_dir(w.skip(1)).0,
                    None => !starts_with(w, "@"@),
                }
            }),
    {
        let (cs, k) = before_cursor(line, pos);
        let (s, _b) = word_bounds(&cs, k);
        let w = slice_vec(cs.as_slice(), s, k);
        let at: [char; 1] = ['@'];
        if !starts_with_exec(w.as_slice(), &at) {
            proof {
                assert(at@ =~= "@"@) by {
                    reveal_strlit("@");
                }
            }
            return None;
        }
        proof {
            reveal_strlit("@");
            assert(at@ =~= "@"@);
        }
        let p = slice_vec(w.as_slice(), 1, w.len());
        assert(p@ =~= w@.skip(1));
        Some(split_dir_exec(&p).0)
    }

    /// Completes the word under the cursor (a byte offset): where the word
    /// starts (in bytes) and the candidates, each shown and replacing.
    /// `entries` are those of the directory that [`Self::dir_to_list`] names.
    pub fn complete(&self, line: &str, pos: usize, entries: &Vec<(String, bool)>) -> (r: (usize, Vec<(String, String)>))
        requires
            on_boundary(line@, pos as nat),
        ensures
            ({
                let k = fit_count(line@, pos as nat) as int;
                let s = word_start(line@, k);
                let w = line@.subrange(s, k);
                r.0 == utf8_len(line@.take(s)) && pairs_view(r.1@) == candidates(self@, w, entries_view(entries@))
            }),
    {
        let (cs, k) = before_cursor(line, pos);
        let (s, b) = word_bounds(&cs, k);
        let w = slice_vec(cs.as_slice(), s, k);
        let mut out: Vec<(String, String)> = Vec::new();
        assert(pairs_view(out@) =~= Seq::<(Seq<char>, Seq<char>)>::empty());
        let slash = chars_of("/");
        let skill = chars_of("/skill ");
        let use_ = chars_of("use ");
        let at = chars_of("@");
        if starts_with_exec(w.as_slice(), slash.as_slice()) {
            if starts_with_exec(w.as_slice(), skill.as_slice()) {
                proof {
                    reveal_strlit("/skill ");
                }
                let prefix = slice_vec(w.as_slice(), 7, w.len());
                assert(prefix@ =~= w@.skip(7));
                if starts_with_exec(prefix.as_slice(), use_.as_slice()) {
                    proof {
                        reveal_strlit("use ");
                    }
                    let sp = slice_vec(prefix.as_slice(), 4, prefix.len());
                    assert(sp@ =~= prefix@.skip(4));
                    push_matching(&mut out, &self.skills, sp.as_slice(), "/skill use ", " ");
                } else {
                    assert(Seq::<char>::empty() =~= ""@) by {
                        reveal_strlit("");
                    }
                    push_matching(&mut out, &self.skills, prefix.as_slice(), "/skill ", "");
                    let ghost prev = out@;
                    out.push((owned("/skill use"), owned("/skill use ")));
                    assert(pairs_view(out@) =~= pairs_view(prev).push(("/skill use"@, "/skill use "@)));
                }
            } else {
                assert(Seq::<char>::empty() =~= ""@) by {
                    reveal_strlit("");
                }
                push_matching(&mut out, &self.commands, w.as_slice(), "", "");
                assert(Seq::<char>::empty() + Seq::<char>::empty() =~= Seq::<char>::empty());
            }
        } else if starts_with_exec(w.as_slice(), at.as_slice()) {
            proof {
                reveal_strlit("@");
            }
            let p = slice_vec(w.as_slice(), 1, w.len());
            assert(p@ =~= w@.skip(1));
            let (dir, partial) = split_dir_exec(&p);
            let paths = dir_paths_exec(&dir, &partial, entries);
            let none: Vec<char> = Vec::new();
            assert(Seq::<char>::empty() =~= ""@) by {
                reveal_strlit("");
            }
            push_matching(&mut out, &paths, none.as_slice(), "@", "");
        }
        proof {
            assert(w@ == line@.subrange(s as int, k as int));
        }
        (b, out)
    }

    /// The rest of the first command that extends the word under the cursor.
    pub fn hint(&self, line: &str, pos: usize) -> (r: Option<String>)
        requires
            on_boundary(line@, pos as nat),
        ensures
            ({
                let k = fit_count(line@, pos as nat) as int;
                let w = line@.subrange(word_start(line@, k), k);
                match r {
                    Some(h) => w.len() > 0 && starts_with(w, "/"@) && !contains(w, " "@)
                        && hint_from(self@.commands, w, 0) == Some(h@),
                    None => w.len() == 0 || !starts_with(w, "/"@) || contains(w, " "@)
                        || hint_from(self@.commands, w, 0) is None,
                }
            }),
    {
        let (cs, k) = before_cursor(line, pos);
        let (s, _b) = word_bounds(&cs, k);
        let w = slice_vec(cs.as_slice(), s, k);
        if w.len() == 0 {
            return None;
        }
        let slash = chars_of("/");
        let space = chars_of(" ");
        if !starts_with_exec(w.as_slice(), slash.as_slice()) || contains_exec(w.as_slice(), space.as_slice()) {
            return None;
        }
        let ghost cv = string_views(self.commands@);
        let ghost wv = line@.subrange(s as int, k as int);
        assert(w@ == wv);
        let mut i: usize = 0;
        while i < self.commands.len()
            invariant
                i <= self.commands.len(),
                cv == string_views(self.commands@),
                w@ == wv,
                wv == line@.subrange(word_start(line@, fit_count(line@, pos as nat) as int), fit_count(line@, pos as nat) as int),
                w@.len() > 0,
                starts_with(wv, "/"@),
                !contains(wv, " "@),
                cv == self@.commands,
                hint_from(cv, w@, 0) == hint_from(cv, w@, i as int),
            decreases self.commands.len() - i,
        {
            let c = chars_of(self.commands[i].as_str());
            assert(c@ == cv[i as int]);
            if starts_with_exec(c.as_slice(), w.as_slice()) && !crate::text::chars_eq(c.as_slice(), w.as_slice()) {
                let rest = slice_vec(c.as_slice(), w.len(), c.len());
                assert(rest@ =~= cv[i as int].skip(w@.len() as int));
                assert(hint_from(cv, w@, i as int) == Some(rest@));
                return Some(string_of(rest.as_slice()));
            }
            i += 1;
        }
        None
    }

    /// The input line as typed, coloured: commands in yellow, lines with a
    /// reference in cyan.
    pub fn highlight(line: &str) -> (r: String)
        ensures
            r@ == if starts_with(line@, "/"@) {
                styled_text("1;33"@, line@)
            } else if contains(line@, "@"@) {
                styled_text("1;36"@, line@)
            } else {
                line@
            },
    {
        if str_starts_with(line, "/") {
            yellow(line)
        } else if crate::text::str_contains(line, "@") {
            cyan(line)
        } else {
            owned(line)
        }
    }

    /// A hint, dimmed.
    pub fn highlight_hint(hint: &str) -> (r: String)
        ensures
            r@ == styled_text("2"@, hint@),
    {
        dim(hint)
    }
}

/// Cuts a path prefix into the directory to list and the start of names.
fn split_dir_exec(prefix: &Vec<char>) -> (r: (String, String))
    ensures
        (r.0@, r.1@) == split_dir(prefix@),
{
    proof {
        lemma_rfind_char_below_range(prefix@, '/', prefix@.len() as int);
    }
    match rfind_char_exec(prefix.as_slice(), '/') {
        Some(p) => {
            assert(rfind_char_below(prefix@, '/', prefix@.len() as int) == Some(p as int));
            proof {
                lemma_rfind_char_below_range(prefix@, '/', prefix@.len() as int);
            }
            assert(p < prefix.len());
            let d = slice_vec(prefix.as_slice(), 0, p + 1);
            let rest = slice_vec(prefix.as_slice(), p + 1, prefix.len());
            assert(d@ =~= prefix@.take(p + 1));
            assert(rest@ =~= prefix@.skip(p + 1));
            (string_of(d.as_slice()), string_of(rest.as_slice()))
        },
        None => (owned("."), string_of(prefix.as_slice())),
    }
}

/// `s` without its trailing slashes.
fn trim_slashes_exec(s: &str) -> (r: String)
    ensures
        r@ == trim_slashes(s@),
{
    let cs = chars_of(s);
    let mut n = cs.len();
    assert(cs@.take(n as int) =~= cs@);
    while n > 0 && cs[n - 1] == '/'
        invariant
            n <= cs.len(),
            trim_slashes(cs@) == trim_slashes(cs@.take(n as int)),
        decreases n,
    {
        assert(cs@.take(n as int).drop_last() =~= cs@.take(n - 1));
        n -= 1;
    }
    proof {
        if n > 0 {
            assert(cs@.take(n as int).last() == cs@[n - 1]);
        }
        assert(cs@.subrange(0, n as int) =~= cs@.take(n as int));
    }
    string_of(slice_vec(cs.as_slice(), 0, n).as_slice())
}

/// The paths offered from the entries of a directory.
fn dir_paths_exec(dir: &String, partial: &String, entries: &Vec<(String, bool)>) -> (r: Vec<String>)
    ensures
        string_views(r@) == dir_paths(dir@, partial@, entries_view(entries@)),
{
    let ghost ev = entries_view(entries@);
    let is_dot = crate::text::str_eq(dir.as_str(), ".");
    let base = trim_slashes_exec(dir.as_str());
    let mut out: Vec<String> = Vec::new();
    assert(string_views(out@) =~= Seq::<Seq<char>>::empty());
    let mut i: usize = 0;
    while i < entries.len()
        invariant
            i <= entries.len(),
            ev == entries_view(entries@),
            is_dot == (dir@ == "."@),
            base@ == trim_slashes(dir@),
            string_views(out@) == dir_paths(dir@, partial@, ev.take(i as int)),
        decreases entries.len() - i,
    {
        let (ref name, is_dir) = entries[i];
        assert(ev.take(i + 1).drop_last() =~= ev.take(i as int));
        assert(ev.take(i + 1).last() == (name@, is_dir));
        if str_starts_with(name.as_str(), partial.as_str()) {
            let mut full = if is_dot {
                owned(name.as_str())
            } else {
                let mut f = owned(base.as_str());
                push_str(&mut f, "/");
                push_str(&mut f, name.as_str());
                f
            };
            if is_dir {
                push_str(&mut full, "/");
            }
            let ghost prev = out@;
            out.push(full);
            proof {
                crate::text::lemma_string_views_push(prev, full);
            }
        }
        i += 1;
    }
    assert(ev.take(entries.len() as int) =~= ev);
    out
}

// ───────────────────────────── skills ─────────────────────────────

/// The names from `v` that are not hidden, in order.
pub open spec fn visible_names(v: Seq<Seq<char>>) -> Seq<Seq<char>>
    decreases v.len(),
{
    if v.len() == 0 {
        Seq::empty()
    } else if starts_with(v.last(), "."@) {
        visible_names(v.drop_last())
    } else {
        visible_names(v.drop_last()).push(v.last())
    }
}

/// `v` without a name equal to the one before it (`Vec::dedup`).
pub open spec fn deduped(v: Seq<Seq<char>>) -> Seq<Seq<char>>
    decreases v.len(),
{
    if v.len() <= 1 {
        v
    } else if v.last() == v[v.len() - 2] {
        deduped(v.drop_last())
    } else {
        deduped(v.drop_last()).push(v.last())
    }
}

/// The names of the skills found in the skill directories: the names not
/// hidden, sorted, each once.
pub fn skill_names(found: Vec<String>) -> (r: Vec<String>)
    ensures
        string_views(r@) == deduped(sorted_texts(visible_names(string_views(found@)))),
{
    let ghost fv = string_views(found@);
    let mut kept: Vec<String> = Vec::new();
    let mut i: usize = 0;
    while i < found.len()
        invariant
            i <= found.len(),
            fv == string_views(found@),
            string_views(kept@) == visible_names(fv.take(i as int)),
        decreases found.len() - i,
    {
        assert(fv.take(i + 1).drop_last() =~= fv.take(i as int));
        assert(fv.take(i + 1).last() == found@[i as int]@);
        if !str_starts_with(found[i].as_str(), ".") {
            let ghost prev = kept@;
            let n = owned(found[i].as_str());
            kept.push(n);
            proof {
                crate::text::lemma_string_views_push(prev, n);
            }
        }
        i += 1;
    }
    assert(fv.take(found.len() as int) =~= fv);
    let sorted = sort_texts(kept);
    let ghost sv = string_views(sorted@);
    let mut out: Vec<String> = Vec::new();
    let mut j: usize = 0;
    while j < sorted.len()
        invariant
            j <= sorted.len(),
            sv == string_views(sorted@),
            string_views(out@) == deduped(sv.take(j as int)),
            j > 0 ==> out.len() > 0 && string_views(out@).last() == sv[j - 1],
        decreases sorted.len() - j,
    {
        assert(sv.take(j + 1).drop_last() =~= sv.take(j as int));
        assert(sv.take(j + 1).last() == sv[j as int]);
        let dup = j > 0 && crate::text::str_eq(sorted[j].as_str(), sorted[j - 1].as_str());
        proof {
            if j > 0 {
                assert(sv.take(j + 1)[j - 1] == sv[j - 1]);
            }
        }
        if !dup {
            let ghost prev = out@;
            let n = owned(sorted[j].as_str());
            out.push(n);
            proof {
                crate::text::lemma_string_views_push(prev, n);
            }
        }
        proof {
            lemma_deduped_last(sv.take(j + 1));
        }
        j += 1;
    }
    assert(sv.take(sorted.len() as int) =~= sv);
    out
}

/// A deduplicated list ends with the last name.
proof fn lemma_deduped_last(v: Seq<Seq<char>>)
    requires
        v.len() > 0,
    ensures
        deduped(v).len() > 0,
        deduped(v).last() == v.last(),
    decreases v.len(),
{
    if v.len() > 1 && v.last() == v[v.len() - 2] {
        lemma_deduped_last(v.drop_last());
    }
}

// ───────────────────────────── commands ─────────────────────────────

/// Where the word that starts at `i` in `s` ends: at the first white space
/// from `i` on, or at the end.
pub open spec fn word_end(s: Seq<char>, i: int) -> int
    decreases s.len() - i,
{
    if i < 0 || i >= s.len() {
        s.len() as int
    } else if is_whitespace(s[i]) {
        i
    } else {
        word_end(s, i + 1)
    }
}

/// The command word of a line: its first word (`split_whitespace`), or the
/// whole line when it has none.
pub open spec fn command_word(line: Seq<char>) -> Seq<char> {
    let t = trim_start(line);
    let w = t.take(word_end(t, 0));
    if w.len() == 0 {
        line
    } else {
        w
    }
}

/// What follows `prefix` in `line`, without surrounding white space.
pub open spec fn argument_after(line: Seq<char>, prefix: Seq<char>) -> Seq<char> {
    trim(line.skip(prefix.len() as int))
}

/// A command of the line mode.
#[derive(Debug, Clone, PartialEq, Eq)]
pub enum ReplCommand {
    Quit,
    Help,
    Clear,
    Model,
    Skills,
    Memory,
    Sessions,
    NewSession,
    /// The MCP servers connected (`/mcp`, whatever follows it).
    McpServers,
    /// Switch to the session whose id starts so.
    Session(String),
    /// Create a skill of this name.
    SkillCreate(String),
    SkillEvolve,
    /// Make a plan for the work described.
    Plan(String),
    /// Brainstorm this idea.
    Brainstorm(String),
    /// Use the named skill for the work described.
    SkillUse(String, String),
    /// Show the skill of this name.
    Skill(String),
    /// A command given wrongly: what to tell the user.
    Usage(String),
    /// A command not known: its word.
    Unknown(String),
}

/// The value of a [`ReplCommand`].
pub ghost enum CommandView {
    Quit,
    Help,
    Clear,
    Model,
    Skills,
    Memory,
    Sessions,
    NewSession,
    McpServers,
    Session(Seq<char>),
    SkillCreate(Seq<char>),
    SkillEvolve,
    Plan(Seq<char>),
    Brainstorm(Seq<char>),
    SkillUse(Seq<char>, Seq<char>),
    Skill(Seq<char>),
    Usage(Seq<char>),
    Unknown(Seq<char>),
}

impl View for ReplCommand {
    type V = CommandView;

    open spec fn view(&self) -> CommandView {
        match self {
            ReplCommand::Quit => CommandView::Quit,
            ReplCommand::Help => CommandView::Help,
            ReplCommand::Clear => CommandView::Clear,
            ReplCommand::Model => CommandView::Model,
            ReplCommand::Skills => CommandView::Skills,
            ReplCommand::Memory => CommandView::Memory,
            ReplCommand::Sessions => CommandView::Sessions,
            ReplCommand::NewSession => CommandView::NewSession,
            ReplCommand::McpServers => CommandView::McpServers,
            ReplCommand::Session(t) => CommandView::Session(t@),
            ReplCommand::SkillCreate(t) => CommandView::SkillCreate(t@),
            ReplCommand::SkillEvolve => CommandView::SkillEvolve,
            ReplCommand::Plan(t) => CommandView::Plan(t@),
            ReplCommand::Brainstorm(t) => CommandView::Brainstorm(t@),
            ReplCommand::SkillUse(a, b) => CommandView::SkillUse(a@, b@),
            ReplCommand::Skill(t) => CommandView::Skill(t@),
            ReplCommand::Usage(t) => CommandView::Usage(t@),
            ReplCommand::Unknown(t) => CommandView::Unknown(t@),
        }
    }
}

/// An argument, or what to tell the user when there is none.
pub open spec fn argument_or(arg: Seq<char>, usage: Seq<char>, cmd: CommandView) -> CommandView {
    if arg.len() == 0 {
        CommandView::Usage(usage)
    } else {
        cmd
    }
}

/// `/skill use` with what follows it: the skill's name up to the first
/// space, and the task after that space.
pub open spec fn skill_use_command(rest: Seq<char>) -> CommandView {
    let (name, task) = match find_char_from(rest, ' ', 0) {
        Some(i) => (rest.take(i), rest.skip(i + 1)),
        None => (rest, Seq::empty()),
    };
    if name.len() == 0 {
        CommandView::Usage("Usage: /skill use <name> <task>"@)
    } else if task.len() == 0 {
        CommandView::Usage("Please specify a task."@)
    } else {
        CommandView::SkillUse(name, task)
    }
}

/// The command a line starting with `/` gives. The command word decides
/// first (so that anything after `/mcp` lists the servers); then the
/// commands with arguments, in order.
pub open spec fn command_of(line: Seq<char>) -> CommandView {
    let w = command_word(line);
    if w == "/quit"@ || w == "/exit"@ || w == "/q"@ {
        CommandView::Quit
    } else if w == "/help"@ || w == "/h"@ || w == "/?"@ {
        CommandView::Help
    } else if w == "/clear"@ {
        CommandView::Clear
    } else if w == "/model"@ {
        CommandView::Model
    } else if w == "/skills"@ {
        CommandView::Skills
    } else if w == "/memory"@ {
        CommandView::Memory
    } else if w == "/sessions"@ {
        CommandView::Sessions
    } else if w == "/new"@ {
        CommandView::NewSession
    } else if w == "/mcp"@ {
        CommandView::McpServers
    } else if starts_with(line, "/session "@) {
        let a = argument_after(line, "/session "@);
        argument_or(a, "Usage: /session <id>"@, CommandView::Session(a))
    } else if starts_with(line, "/skill create "@) {
        let a = argument_after(line, "/skill create "@);
        argument_or(a, "Usage: /skill create <name>"@, CommandView::SkillCreate(a))
    } else if starts_with(line, "/skill evolve"@) {
        CommandView::SkillEvolve
    } else if starts_with(line, "/plan "@) {
        let a = argument_after(line, "/plan "@);
        argument_or(a, "Usage: /plan <task description>"@, CommandView::Plan(a))
    } else if starts_with(line, "/brainstorm "@) {
        let a = argument_after(line, "/brainstorm "@);
        argument_or(a, "Usage: /brainstorm <idea>"@, CommandView::Brainstorm(a))
    } else if starts_with(line, "/skill use "@) {
        skill_use_command(argument_after(line, "/skill use "@))
    } else if starts_with(line, "/skill "@) {
        let a = argument_after(line, "/skill "@);
        argument_or(a, "Usage: /skill <name>"@, CommandView::Skill(a))
    } else {
        CommandView::Unknown(w)
    }
}

/// The first word of a line, or the whole line when it has none.
fn command_word_exec(cs: &Vec<char>) -> (r: Vec<char>)
    ensures
        r@ == command_word(cs@),
{
    let (a, _) = crate::text::trim_bounds(cs.as_slice());
    let t = slice_vec(cs.as_slice(), a, cs.len());
    assert(t@ =~= trim_start(cs@));
    let mut k: usize = 0;
    while k < t.len() && !is_whitespace_exec(t[k])
        invariant
            k <= t.len(),
            word_end(t@, 0) == word_end(t@, k as int),
        decreases t.len() - k,
    {
        k += 1;
    }
    assert(word_end(t@, k as int) == k);
    if k == 0 {
        assert(t@.take(0).len() == 0);
        return slice_vec(cs.as_slice(), 0, cs.len());
    }
    slice_vec(t.as_slice(), 0, k)
}

/// What follows `prefix` in `cs`, trimmed; `cs` starts with `prefix`.
fn argument_exec(cs: &Vec<char>, prefix: &str) -> (r: String)
    requires
        starts_with(cs@, prefix@),
    ensures
        r@ == argument_after(cs@, prefix@),
{
    let p = chars_of(prefix);
    let rest = slice_vec(cs.as_slice(), p.len(), cs.len());
    assert(rest@ =~= cs@.skip(prefix@.len() as int));
    let t = crate::text::trim_exec(rest.as_slice());
    string_of(t.as_slice())
}

/// An argument as a command, or the usage when it is empty.
fn argument_or_exec(arg: String, usage: &str, make: ReplCommand) -> (r: ReplCommand)
    ensures
        r@ == argument_or(arg@, usage@, make@),
{
    if arg.as_str().is_empty() {
        ReplCommand::Usage(owned(usage))
    } else {
        make
    }
}

/// `/skill use` with what follows it.
fn skill_use_exec(rest: String) -> (r: ReplCommand)
    ensures
        r@ == skill_use_command(rest@),
{
    let cs = chars_of(rest.as_str());
    let (name, task) = match crate::text::find_char_exec(cs.as_slice(), ' ', 0) {
        Some(i) => {
            proof {
                crate::text::lemma_find_char_from_range(cs@, ' ', 0);
                assert(find_char_from(cs@, ' ', 0) == Some(i as int));
            }
            assert(i < cs.len());
            let n = slice_vec(cs.as_slice(), 0, i);
            let t = slice_vec(cs.as_slice(), i + 1, cs.len());
            assert(n@ =~= cs@.take(i as int));
            assert(t@ =~= cs@.skip(i + 1));
            (n, t)
        },
        None => (slice_vec(cs.as_slice(), 0, cs.len()), Vec::new()),
    };
    assert(cs@.subrange(0, cs@.len() as int) =~= cs@);
    if name.len() == 0 {
        ReplCommand::Usage(owned("Usage: /skill use <name> <task>"))
    } else if task.len() == 0 {
        ReplCommand::Usage(owned("Please specify a task."))
    } else {
        ReplCommand::SkillUse(string_of(name.as_slice()), string_of(task.as_slice()))
    }
}

/// The command that a line starting with `/` gives.
pub fn parse_command(line: &str) -> (r: ReplCommand)
    ensures
        r@ == command_of(line@),
{
    let cs = chars_of(line);
    let word = command_word_exec(&cs);
    let w = string_of(word.as_slice());
    let ws = w.as_str();
    if str_eq(ws, "/quit") || str_eq(ws, "/exit") || str_eq(ws, "/q") {
        ReplCommand::Quit
    } else if str_eq(ws, "/help") || str_eq(ws, "/h") || str_eq(ws, "/?") {
        ReplCommand::Help
    } else if str_eq(ws, "/clear") {
        ReplCommand::Clear
    } else if str_eq(ws, "/model") {
        ReplCommand::Model
    } else if str_eq(ws, "/skills") {
        ReplCommand::Skills
    } else if str_eq(ws, "/memory") {
        ReplCommand::Memory
    } else if str_eq(ws, "/sessions") {
        ReplCommand::Sessions
    } else if str_eq(ws, "/new") {
        ReplCommand::NewSession
    } else if str_eq(ws, "/mcp") {
        ReplCommand::McpServers
    } else if str_starts_with(line, "/session ") {
        let a = argument_exec(&cs, "/session ");
        let made = ReplCommand::Session(owned(a.as_str()));
        argument_or_exec(a, "Usage: /session <id>", made)
    } else if str_starts_with(line, "/skill create ") {
        let a = argument_exec(&cs, "/skill create ");
        let made = ReplCommand::SkillCreate(owned(a.as_str()));
        argument_or_exec(a, "Usage: /skill create <name>", made)
    } else if str_starts_with(line, "/skill evolve") {
        ReplCommand::SkillEvolve
    } else if str_starts_with(line, "/plan ") {
        let a = argument_exec(&cs, "/plan ");
        let made = ReplCommand::Plan(owned(a.as_str()));
        argument_or_exec(a, "Usage: /plan <task description>", made)
    } else if str_starts_with(line, "/brainstorm ") {
        let a = argument_exec(&cs, "/brainstorm ");
        let made = ReplCommand::Brainstorm(owned(a.as_str()));
        argument_or_exec(a, "Usage: /brainstorm <idea>", made)
    } else if str_starts_with(line, "/skill use ") {
        skill_use_exec(argument_exec(&cs, "/skill use "))
    } else if str_starts_with(line, "/skill ") {
        let a = argument_exec(&cs, "/skill ");
        let made = ReplCommand::Skill(owned(a.as_str()));
        argument_or_exec(a, "Usage: /skill <name>", made)
    } else {
        ReplCommand::Unknown(w)
    }
}

/// A title shown in at most `max` bytes: cut there and marked `...` when
/// longer.
pub open spec fn cut_title(s: Seq<char>, max: nat) -> Seq<char> {
    if utf8_len(s) > max {
        s.take(fit_count(s, max) as int) + "..."@
    } else {
        s
    }
}

/// A title cut to at most `max` bytes, marked `...` when it was longer. A
/// longer title is cut on a character boundary.
pub fn title_cut(s: &str, max: usize) -> (r: String)
    requires
        utf8_len(s@) <= max || on_boundary(s@, max as nat),
    ensures
        r@ == cut_title(s@, max as nat),
{
    let cs = chars_of(s);
    let len = crate::tui::input::byte_len(&cs);
    if len <= max {
        return owned(s);
    }
    let k = crate::tui::input::char_index(&cs, max);
    let mut r = string_of(slice_vec(cs.as_slice(), 0, k).as_slice());
    push_str(&mut r, "...");
    assert(cs@.subrange(0, k as int) =~= cs@.take(k as int));
    r
}

} // verus!
