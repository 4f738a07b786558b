//! The built-in tools. Each tool's reading of its arguments and the text it
//! answers with are here; the file system, processes and network that the
//! tools use are driven by the application.
use vstd::prelude::*;
use crate::json::{json_bool, json_bool_field, json_items, json_str_field, json_string_field, json_string_items, json_u64, json_u64_field, opt_view, opt_views};
use crate::subagent::{lex_less, lex_lt};
use crate::permissions::{is_read_only, read_only_tools};
use crate::text::{
    all_ascii, append_chars, append_str, chars_of, contains, decimal, decimal_exec, find, find_exec, find_from, join,
    take_chars, trim, utf8_len,
    join_exec, lemma_find_from_range, lines, lines_exec, owned, push_str, slice_vec, starts_with,
    string_of, string_views, views,
};

verus! {

/// Reads a file, a window of its lines at a time.
pub struct FileReadTool;

/// Writes a file.
pub struct FileWriteTool;

/// Edits a file by replacing a piece of text.
pub struct FileEditTool;

/// Runs a shell command.
pub struct ShellTool;

/// Searches files with a regular expression.
pub struct GrepTool;

/// Finds files by a glob pattern.
pub struct GlobTool;

/// Lists a directory.
pub struct LsTool;

/// Shows the changes of the work tree.
pub struct GitDiffTool;

/// Shows the status of the work tree.
pub struct GitStatusTool;

/// Commits changes.
pub struct GitCommitTool;

/// Lists the installed skills.
pub struct SkillListTool;

/// Reads an installed skill.
pub struct SkillReadTool;

/// Searches the web.
pub struct WebSearchTool;

/// The name and version an MCP server reports.
#[derive(Debug, Clone)]
pub struct McpServerInfo {
    pub name: String,
    pub version: String,
}

/// The error for a missing argument.
pub open spec fn missing_arg(key: Seq<char>) -> Seq<char> {
    "Missing '"@ + key + "' argument"@
}

/// A required string argument: its value, or the error naming it.
fn required_arg(args: &str, key: &str) -> (r: Result<String, String>)
    ensures
        match json_string_field(args@, key@) {
            Some(v) => r matches Ok(s) && s@ == v,
            None => r matches Err(e) && e@ == missing_arg(key@),
        },
{
    match json_str_field(args, key) {
        Some(v) => Ok(v),
        None => {
            let mut e = owned("Missing '");
            push_str(&mut e, key);
            push_str(&mut e, "' argument");
            Err(e)
        },
    }
}

// ───────────────────────────── paths ─────────────────────────────

/// The path that `std::path::Path::join` makes of `rel` under `base`.
pub uninterp spec fn joined_path(base: Seq<char>, rel: Seq<char>) -> Seq<char>;

/// Whether a path is absolute: on Unix, as the documentation of
/// `Path::is_absolute` says, exactly when it starts with `/`.
fn path_is_absolute(p: &str) -> (r: bool)
    ensures
        r == starts_with(p@, "/"@),
{
    let cs = chars_of(p);
    proof {
        reveal_strlit("/");
    }
    if cs.len() == 0 {
        return false;
    }
    assert("/"@.len() == 1 && "/"@[0] == '/');
    assert(cs@.take(1) =~= seq![cs@[0]]);
    assert(starts_with(p@, "/"@) == (cs@[0] == '/')) by {
        if cs@[0] == '/' {
            assert(p@.take(1) =~= "/"@);
        }
    }
    cs[0] == '/'
}

/// Calls `Path::join` and gives the result as text (`to_string_lossy`, which
/// keeps text that came as text). The contract names the result; as the
/// documentation of `PathBuf::push` says, an absolute `rel` replaces `base`.
#[verifier::external_body]
fn path_join(base: &str, rel: &str) -> (r: String)
    ensures
        r@ == joined_path(base@, rel@),
        starts_with(rel@, "/"@) ==> r@ == rel@,
{
    std::path::Path::new(base).join(rel).to_string_lossy().to_string()
}

/// A path as a tool uses it: an absolute path as it is, any other path under
/// the working directory.
pub open spec fn resolved_path(path: Seq<char>, working_dir: Seq<char>) -> Seq<char> {
    if starts_with(path, "/"@) {
        path
    } else {
        joined_path(working_dir, path)
    }
}

/// Resolves `path` against the working directory.
pub fn resolve_path(path: &str, working_dir: &str) -> (r: String)
    ensures
        r@ == resolved_path(path@, working_dir@),
{
    if path_is_absolute(path) {
        owned(path)
    } else {
        path_join(working_dir, path)
    }
}

// ───────────────────────────── file_read ─────────────────────────────

/// The lines of a file shown from index `start` to `end`, each numbered from 1.
pub open spec fn numbered_lines(ls: Seq<Seq<char>>, start: int, end: int) -> Seq<char>
    decreases end - start,
{
    if end <= start {
        Seq::empty()
    } else {
        numbered_lines(ls, start, end - 1) + decimal(end as nat) + ": "@ + ls[end - 1] + "\n"@
    }
}

/// The first line shown for an offset.
pub open spec fn window_start(offset: nat, total: nat) -> nat {
    if offset < total { offset } else { total }
}

/// One past the last line shown.
pub open spec fn window_end(offset: nat, limit: nat, total: nat) -> nat {
    if window_start(offset, total) + limit < total { window_start(offset, total) + limit } else { total }
}

/// What reading a file shows: up to `limit` numbered lines from line
/// `offset`, and a note when more lines follow.
pub open spec fn file_window(content: Seq<char>, offset: nat, limit: nat) -> Seq<char> {
    let ls = lines(content);
    let total = ls.len();
    let start = window_start(offset, total);
    let end = window_end(offset, limit, total);
    numbered_lines(ls, start as int, end as int) + if end < total {
        "\n(Showing lines "@ + decimal(start + 1) + "-"@ + decimal(end) + " of "@ + decimal(total)
            + " total. Use offset to read more.)"@
    } else {
        Seq::<char>::empty()
    }
}

impl FileReadTool {
    /// The path to read, the first line, and how many lines: the offset
    /// defaults to 0, the limit to 2000.
    pub fn request(args: &str) -> (r: Result<(String, u64, u64), String>)
        ensures
            match json_string_field(args@, "path"@) {
                Some(p) => r matches Ok((path, offset, limit)) && path@ == p
                    && offset == (match json_u64_field(args@, "offset"@) { Some(n) => n, None => 0 })
                    && limit == (match json_u64_field(args@, "limit"@) { Some(n) => n, None => 2000 }),
                None => r matches Err(e) && e@ == missing_arg("path"@),
            },
    {
        let path = match required_arg(args, "path") {
            Ok(p) => p,
            Err(e) => return Err(e),
        };
        let offset = match json_u64(args, "offset") {
            Some(n) => n,
            None => 0,
        };
        let limit = match json_u64(args, "limit") {
            Some(n) => n,
            None => 2000,
        };
        Ok((path, offset, limit))
    }

    /// The window of a file's text that a read shows.
    pub fn window(content: &str, offset: usize, limit: usize) -> (r: String)
        requires
            window_start(offset as nat, lines(content@).len()) + limit <= usize::MAX,
        ensures
            r@ == file_window(content@, offset as nat, limit as nat),
    {
        let cs = chars_of(content);
        let ls = lines_exec(cs.as_slice());
        let ghost lv = views(ls@);
        let total = ls.len();
        let start = if offset < total { offset } else { total };
        let end = if start + limit < total { start + limit } else { total };
        let mut out: Vec<char> = Vec::new();
        let mut k = start;
        while k < end
            invariant
                start <= k <= end <= total,
                total == ls.len(),
                lv == views(ls@),
                out@ == numbered_lines(lv, start as int, k as int),
            decreases end - k,
        {
            let d = decimal_exec((k + 1) as u64);
            append_chars(&mut out, d.as_slice());
            append_str(&mut out, ": ");
            append_chars(&mut out, ls[k].as_slice());
            append_str(&mut out, "\n");
            assert(lv[k as int] == ls@[k as int]@);
            k += 1;
        }
        if end < total {
            append_str(&mut out, "\n(Showing lines ");
            let a = decimal_exec((start + 1) as u64);
            append_chars(&mut out, a.as_slice());
            append_str(&mut out, "-");
            let b = decimal_exec(end as u64);
            append_chars(&mut out, b.as_slice());
            append_str(&mut out, " of ");
            let c = decimal_exec(total as u64);
            append_chars(&mut out, c.as_slice());
            append_str(&mut out, " total. Use offset to read more.)");
        }
        string_of(out.as_slice())
    }
}

// ───────────────────────────── file_edit and file_write ─────────────────────────────

/// `content` with the first occurrence of `old` replaced by `new`
/// (`str::replacen(old, new, 1)`), when `old` occurs.
pub open spec fn edited(content: Seq<char>, old: Seq<char>, new: Seq<char>) -> Option<Seq<char>> {
    match find(content, old) {
        Some(i) => Some(content.take(i) + new + content.skip(i + old.len())),
        None => None,
    }
}

impl FileEditTool {
    /// The path, the text to replace and its replacement.
    pub fn request(args: &str) -> (r: Result<(String, String, String), String>)
        ensures
            match (json_string_field(args@, "path"@), json_string_field(args@, "old_string"@), json_string_field(args@, "new_string"@)) {
                (Some(p), Some(o), Some(n)) => r matches Ok((path, old, new)) && path@ == p && old@ == o && new@ == n,
                (None, _, _) => r matches Err(e) && e@ == missing_arg("path"@),
                (Some(_), None, _) => r matches Err(e) && e@ == missing_arg("old_string"@),
                (Some(_), Some(_), None) => r matches Err(e) && e@ == missing_arg("new_string"@),
            },
    {
        let path = match required_arg(args, "path") {
            Ok(p) => p,
            Err(e) => return Err(e),
        };
        let old = match required_arg(args, "old_string") {
            Ok(p) => p,
            Err(e) => return Err(e),
        };
        let new = match required_arg(args, "new_string") {
            Ok(p) => p,
            Err(e) => return Err(e),
        };
        Ok((path, old, new))
    }

    /// The new text of the file at `path`: its first occurrence of `old`
    /// replaced by `new`; an error when `old` does not occur.
    pub fn edit(path: &str, content: &str, old: &str, new: &str) -> (r: Result<String, String>)
        ensures
            match edited(content@, old@, new@) {
                Some(t) => r matches Ok(s) && s@ == t,
                None => r matches Err(e) && e@ == "old_string not found in '"@ + path@ + "'"@,
            },
    {
        let cs = chars_of(content);
        let os = chars_of(old);
        match find_exec(cs.as_slice(), os.as_slice()) {
            None => {
                let mut e = owned("old_string not found in '");
                push_str(&mut e, path);
                push_str(&mut e, "'");
                Err(e)
            },
            Some(i) => {
                proof {
                    lemma_find_from_range(cs@, os@, 0);
                    assert(find(cs@, os@) == find_from(cs@, os@, 0));
                }
                let olen = os.len();
                assert(i + olen <= cs.len());
                let mut out = slice_vec(cs.as_slice(), 0, i);
                append_str(&mut out, new);
                let tail = slice_vec(cs.as_slice(), i + olen, cs.len());
                append_chars(&mut out, tail.as_slice());
                assert(cs@.subrange(0, i as int) =~= cs@.take(i as int));
                assert(cs@.subrange(i + olen, cs@.len() as int) =~= cs@.skip(i + olen));
                Ok(string_of(out.as_slice()))
            },
        }
    }

    /// The answer once the file at `path` is edited.
    pub fn done_message(path: &str) -> (r: String)
        ensures
            r@ == "Successfully edited "@ + path@,
    {
        let mut r = owned("Successfully edited ");
        push_str(&mut r, path);
        r
    }
}

impl FileWriteTool {
    /// The path and the text to write.
    pub fn request(args: &str) -> (r: Result<(String, String), String>)
        ensures
            match (json_string_field(args@, "path"@), json_string_field(args@, "content"@)) {
                (Some(p), Some(c)) => r matches Ok((path, content)) && path@ == p && content@ == c,
                (None, _) => r matches Err(e) && e@ == missing_arg("path"@),
                (Some(_), None) => r matches Err(e) && e@ == missing_arg("content"@),
            },
    {
        let path = match required_arg(args, "path") {
            Ok(p) => p,
            Err(e) => return Err(e),
        };
        let content = match required_arg(args, "content") {
            Ok(p) => p,
            Err(e) => return Err(e),
        };
        Ok((path, content))
    }

    /// The answer once the file at `path` is written.
    pub fn done_message(path: &str) -> (r: String)
        ensures
            r@ == "Successfully written to "@ + path@,
    {
        let mut r = owned("Successfully written to ");
        push_str(&mut r, path);
        r
    }
}

// ───────────────────────────── shell and git ─────────────────────────────

/// `i` in decimal, with a minus sign when negative.
pub open spec fn int_text(i: int) -> Seq<char> {
    if i < 0 {
        "-"@ + decimal((-i) as nat)
    } else {
        decimal(i as nat)
    }
}

fn int_text_exec(i: i32) -> (r: Vec<char>)
    ensures
        r@ == int_text(i as int),
{
    let mut r: Vec<char> = Vec::new();
    if i < 0 {
        r.push('-');
        let d = decimal_exec((-(i as i64)) as u64);
        append_chars(&mut r, d.as_slice());
        proof {
            reveal_strlit("-");
        }
        assert(r@ =~= "-"@ + decimal((-(i as int)) as nat));
    } else {
        let d = decimal_exec(i as u64);
        append_chars(&mut r, d.as_slice());
        assert(r@ =~= decimal(i as nat));
    }
    r
}

/// What a finished command answers: its output, the error output after a
/// `[stderr]` mark when there is any, and the exit code when it failed (-1
/// when it has none).
pub open spec fn shell_answer(success: bool, code: Option<i32>, stdout: Seq<char>, stderr: Seq<char>) -> Seq<char> {
    if success {
        if stdout.len() == 0 && stderr.len() == 0 {
            "(command completed successfully with no output)"@
        } else if stderr.len() == 0 {
            stdout
        } else {
            stdout + "\n[stderr]\n"@ + stderr
        }
    } else {
        stdout + "\n[stderr]\n"@ + stderr + "\n[exit code: "@ + int_text(
            match code {
                Some(c) => c as int,
                None => -1,
            },
        ) + "]"@
    }
}

impl ShellTool {
    /// The command to run and its time limit in milliseconds (30000 by default).
    pub fn request(args: &str) -> (r: Result<(String, u64), String>)
        ensures
            match json_string_field(args@, "command"@) {
                Some(c) => r matches Ok((cmd, t)) && cmd@ == c && t == (match json_u64_field(args@, "timeout_ms"@) {
                    Some(n) => n,
                    None => 30000,
                }),
                None => r matches Err(e) && e@ == missing_arg("command"@),
            },
    {
        let command = match required_arg(args, "command") {
            Ok(c) => c,
            Err(e) => return Err(e),
        };
        let t = match json_u64(args, "timeout_ms") {
            Some(n) => n,
            None => 30000,
        };
        Ok((command, t))
    }

    /// The answer of a command that finished.
    pub fn answer(success: bool, code: Option<i32>, stdout: &str, stderr: &str) -> (r: String)
        ensures
            r@ == shell_answer(success, code, stdout@, stderr@),
    {
        if success {
            if stdout.is_empty() && stderr.is_empty() {
                owned("(command completed successfully with no output)")
            } else if stderr.is_empty() {
                owned(stdout)
            } else {
                let mut r = owned(stdout);
                push_str(&mut r, "\n[stderr]\n");
                push_str(&mut r, stderr);
                r
            }
        } else {
            let c: i32 = match code {
                Some(c) => c,
                None => -1,
            };
            let mut r = owned(stdout);
            push_str(&mut r, "\n[stderr]\n");
            push_str(&mut r, stderr);
            push_str(&mut r, "\n[exit code: ");
            let t = int_text_exec(c);
            let ts = string_of(t.as_slice());
            push_str(&mut r, ts.as_str());
            push_str(&mut r, "]");
            r
        }
    }

    /// The answer of a command that ran out of time.
    pub fn timeout_answer(timeout_ms: u64) -> (r: String)
        ensures
            r@ == "[timeout] Command timed out after "@ + decimal(timeout_ms as nat) + "ms"@,
    {
        let mut out: Vec<char> = Vec::new();
        append_str(&mut out, "[timeout] Command timed out after ");
        let d = decimal_exec(timeout_ms);
        append_chars(&mut out, d.as_slice());
        append_str(&mut out, "ms");
        string_of(out.as_slice())
    }
}

impl GitStatusTool {
    /// The answer of `git status --short`.
    pub fn answer(success: bool, stdout: &str, stderr: &str) -> (r: String)
        ensures
            r@ == if !success {
                stdout@ + "\n[stderr]\n"@ + stderr@
            } else if stdout@.len() == 0 {
                "Working tree clean."@
            } else {
                stdout@
            },
    {
        if !success {
            let mut r = owned(stdout);
            push_str(&mut r, "\n[stderr]\n");
            push_str(&mut r, stderr);
            r
        } else if stdout.is_empty() {
            owned("Working tree clean.")
        } else {
            owned(stdout)
        }
    }
}

/// The unstaged and the staged changes, each under its heading when there is any.
pub open spec fn diff_answer(unstaged: Seq<char>, staged: Seq<char>) -> Seq<char> {
    let a = if unstaged.len() > 0 { "--- Unstaged changes ---\n"@ + unstaged } else { Seq::empty() };
    let b = if staged.len() > 0 {
        (if a.len() > 0 { "\n"@ } else { Seq::empty() }) + "--- Staged changes ---\n"@ + staged
    } else {
        Seq::empty()
    };
    if a.len() == 0 && b.len() == 0 {
        "No changes."@
    } else {
        a + b
    }
}

impl GitDiffTool {
    /// The file or directory to diff, if one is named.
    pub fn request(args: &str) -> (r: Option<String>)
        ensures
            opt_view(r) == json_string_field(args@, "path"@),
    {
        json_str_field(args, "path")
    }

    /// The answer from the outputs of `git diff` and `git diff --cached`.
    pub fn answer(unstaged: &str, staged: &str) -> (r: String)
        ensures
            r@ == diff_answer(unstaged@, staged@),
    {
        let mut out = String::new();
        if !unstaged.is_empty() {
            push_str(&mut out, "--- Unstaged changes ---\n");
            push_str(&mut out, unstaged);
        }
        if !staged.is_empty() {
            if !out.as_str().is_empty() {
                push_str(&mut out, "\n");
            }
            push_str(&mut out, "--- Staged changes ---\n");
            push_str(&mut out, staged);
        }
        proof {
            reveal_strlit("--- Unstaged changes ---\n");
            reveal_strlit("--- Staged changes ---\n");
            reveal_strlit("\n");
        }
        if out.as_str().is_empty() {
            owned("No changes.")
        } else {
            out
        }
    }
}

/// The texts among optional texts, in order.
pub open spec fn strings_of(v: Seq<Option<Seq<char>>>) -> Seq<Seq<char>>
    decreases v.len(),
{
    if v.len() == 0 {
        Seq::empty()
    } else {
        match v.last() {
            Some(t) => strings_of(v.drop_last()).push(t),
            None => strings_of(v.drop_last()),
        }
    }
}

/// The arguments of `git add` for the items of the `files` array: `-A` when
/// there is no array or it is empty, else the strings it holds.
pub open spec fn staging_args(items: Option<Seq<Option<Seq<char>>>>) -> Seq<Seq<char>> {
    match items {
        Some(v) => if v.len() == 0 { seq!["-A"@] } else { strings_of(v) },
        None => seq!["-A"@],
    }
}

impl GitCommitTool {
    /// The commit message and the arguments of `git add`: the strings that
    /// the `files` array names (others are passed over), or `-A` for
    /// everything when there is no such array or it is empty.
    pub fn request(args: &str) -> (r: Result<(String, Vec<String>), String>)
        ensures
            match json_string_field(args@, "message"@) {
                Some(m) => r matches Ok((msg, add)) && msg@ == m
                    && string_views(add@) == staging_args(json_string_items(args@, "files"@)),
                None => r matches Err(e) && e@ == missing_arg("message"@),
            },
    {
        let message = match required_arg(args, "message") {
            Ok(m) => m,
            Err(e) => return Err(e),
        };
        let mut add: Vec<String> = Vec::new();
        match json_items(args, "files") {
            Some(items) => {
                if items.len() == 0 {
                    add.push(owned("-A"));
                    assert(string_views(add@) =~= seq!["-A"@]);
                } else {
                    let ghost iv = opt_views(items@);
                    let mut i: usize = 0;
                    while i < items.len()
                        invariant
                            i <= items.len(),
                            iv == opt_views(items@),
                            string_views(add@) == strings_of(iv.take(i as int)),
                        decreases items.len() - i,
                    {
                        proof {
                            assert(iv.take(i + 1).drop_last() =~= iv.take(i as int));
                            assert(iv.take(i + 1).last() == opt_view(items@[i as int]));
                        }
                        match &items[i] {
                            Some(f) => {
                                let ghost before = add@;
                                let s = owned(f.as_str());
                                add.push(s);
                                proof {
                                    crate::text::lemma_string_views_push(before, s);
                                }
                            },
                            None => {},
                        }
                        i += 1;
                    }
                    assert(iv.take(items.len() as int) =~= iv);
                }
            },
            None => {
                add.push(owned("-A"));
                assert(string_views(add@) =~= seq!["-A"@]);
            },
        }
        Ok((message, add))
    }

    /// The answer when `git add` failed.
    pub fn add_failed(stderr: &str) -> (r: String)
        ensures
            r@ == "git add failed:\n"@ + stderr@,
    {
        let mut r = owned("git add failed:\n");
        push_str(&mut r, stderr);
        r
    }

    /// The answer of `git commit`.
    pub fn answer(success: bool, stdout: &str, stderr: &str) -> (r: String)
        ensures
            r@ == if success { stdout@ } else { stdout@ + "\n[stderr]\n"@ + stderr@ },
    {
        if success {
            owned(stdout)
        } else {
            let mut r = owned(stdout);
            push_str(&mut r, "\n[stderr]\n");
            push_str(&mut r, stderr);
            r
        }
    }
}

// ───────────────────────────── listings ─────────────────────────────

/// `x` placed into the sorted list `sorted`, after the entries that do not
/// come after it.
pub open spec fn insert_sorted(sorted: Seq<Seq<char>>, x: Seq<char>) -> Seq<Seq<char>>
    decreases sorted.len(),
{
    if sorted.len() == 0 {
        seq![x]
    } else if lex_lt(x, sorted.last()) {
        insert_sorted(sorted.drop_last(), x).push(sorted.last())
    } else {
        sorted.push(x)
    }
}

/// The texts in the order of `String`, repeats kept (as `slice::sort`).
pub open spec fn sorted_texts(s: Seq<Seq<char>>) -> Seq<Seq<char>>
    decreases s.len(),
{
    if s.len() == 0 {
        Seq::empty()
    } else {
        insert_sorted(sorted_texts(s.drop_last()), s.last())
    }
}

/// Sorts texts in the order of `String`.
pub fn sort_texts(v: Vec<String>) -> (r: Vec<String>)
    ensures
        string_views(r@) == sorted_texts(string_views(v@)),
{
    let ghost all = string_views(v@);
    let n = v.len();
    let mut rest = v;
    let mut sorted: Vec<String> = Vec::new();
    let mut i: usize = 0;
    assert(all.skip(0) =~= all);
    while rest.len() > 0
        invariant
            i + rest.len() == all.len(),
            all.len() == n,
            string_views(rest@) == all.skip(i as int),
            string_views(sorted@) == sorted_texts(all.take(i as int)),
        decreases rest.len(),
    {
        let ghost r0 = rest@;
        let x = rest.remove(0);
        assert(string_views(r0)[0] == x@);
        assert(x@ == all[i as int]);
        assert(rest@ =~= r0.drop_first());
        assert(string_views(rest@) =~= string_views(r0).drop_first());
        assert(all.skip(i as int).drop_first() =~= all.skip(i + 1));
        let key = chars_of(x.as_str());
        let ghost s0 = string_views(sorted@);
        let mut p = sorted.len();
        assert(s0.take(p as int) =~= s0);
        assert(s0.skip(p as int) =~= Seq::<Seq<char>>::empty());
        while p > 0
            invariant_except_break
                p <= sorted.len(),
                string_views(sorted@) == s0,
                key@ == x@,
                insert_sorted(s0, x@) == insert_sorted(s0.take(p as int), x@) + s0.skip(p as int),
            ensures
                p <= sorted.len(),
                string_views(sorted@) == s0,
                insert_sorted(s0, x@) == if p == 0 {
                    seq![x@] + s0
                } else {
                    s0.take(p as int).push(x@) + s0.skip(p as int)
                },
            decreases p,
        {
            let k = chars_of(sorted[p - 1].as_str());
            let ghost pre = s0.take(p as int);
            assert(pre.last() == s0[p - 1]);
            assert(s0[p - 1] == sorted@[p - 1]@);
            assert(pre.drop_last() =~= s0.take(p - 1));
            if !lex_less(key.as_slice(), k.as_slice()) {
                break;
            }
            assert(insert_sorted(s0.take(p - 1), x@).push(s0[p - 1]) + s0.skip(p as int) =~= insert_sorted(
                s0.take(p - 1),
                x@,
            ) + s0.skip(p - 1));
            p -= 1;
            if p == 0 {
                assert(s0.take(0) =~= Seq::<Seq<char>>::empty());
            }
        }
        let ghost sv = sorted@;
        sorted.insert(p, x);
        proof {
            assert(string_views(sorted@) =~= s0.insert(p as int, x@));
            if p == 0 {
                assert(s0.insert(0, x@) =~= seq![x@] + s0);
            } else {
                assert(s0.insert(p as int, x@) =~= s0.take(p as int).push(x@) + s0.skip(p as int));
            }
            assert(all.take(i + 1).drop_last() =~= all.take(i as int));
            assert(all.take(i + 1).last() == x@);
        }
        i += 1;
    }
    assert(all.take(i as int) =~= all);
    sorted
}

impl LsTool {
    /// The directory to list (`.` by default) and whether to show hidden
    /// entries (no by default).
    pub fn request(args: &str) -> (r: (String, bool))
        ensures
            r.0@ == match json_string_field(args@, "path"@) { Some(p) => p, None => "."@ },
            r.1 == match json_bool_field(args@, "show_hidden"@) { Some(b) => b, None => false },
    {
        let path = match json_str_field(args, "path") {
            Some(p) => p,
            None => owned("."),
        };
        let hidden = match json_bool(args, "show_hidden") {
            Some(b) => b,
            None => false,
        };
        (path, hidden)
    }

    /// Whether an entry is listed: hidden entries (named with a leading dot)
    /// only when asked for.
    pub fn shown(name: &str, show_hidden: bool) -> (r: bool)
        ensures
            r == (show_hidden || !starts_with(name@, "."@)),
    {
        show_hidden || !crate::text::str_starts_with(name, ".")
    }

    /// The line of one entry: its kind, its size and its name.
    pub fn entry_line(kind: &str, size: &str, name: &str) -> (r: String)
        ensures
            r@ == kind@ + "  "@ + size@ + "  "@ + name@,
    {
        let mut r = owned(kind);
        push_str(&mut r, "  ");
        push_str(&mut r, size);
        push_str(&mut r, "  ");
        push_str(&mut r, name);
        r
    }

    /// The listing of the directory `path` from its entry lines: sorted, one
    /// per line, or a note that the directory is empty.
    pub fn listing(path: &str, entries: Vec<String>) -> (r: String)
        ensures
            r@ == if entries@.len() == 0 {
                "(empty directory: "@ + path@ + ")"@
            } else {
                join(sorted_texts(string_views(entries@)), "\n"@)
            },
    {
        if entries.len() == 0 {
            let mut r = owned("(empty directory: ");
            push_str(&mut r, path);
            push_str(&mut r, ")");
            return r;
        }
        let sorted = sort_texts(entries);
        join_strings(&sorted, "\n")
    }
}

/// `parts` joined with `sep` (`[String]::join`).
pub fn join_strings(parts: &Vec<String>, sep: &str) -> (r: String)
    ensures
        r@ == join(string_views(parts@), sep@),
{
    let ghost pv = string_views(parts@);
    let mut out = String::new();
    let mut i: usize = 0;
    while i < parts.len()
        invariant
            i <= parts.len(),
            pv == string_views(parts@),
            out@ == join(pv.take(i as int), sep@),
        decreases parts.len() - i,
    {
        if i > 0 {
            push_str(&mut out, sep);
        }
        push_str(&mut out, parts[i].as_str());
        proof {
            crate::text::lemma_join_push(pv.take(i as int), pv[i as int], sep@);
            assert(pv.take(i as int).push(pv[i as int]) =~= pv.take(i + 1));
        }
        i += 1;
    }
    assert(pv.take(parts.len() as int) =~= pv);
    out
}

impl SkillReadTool {
    /// The name of the skill to read.
    pub fn request(args: &str) -> (r: Result<String, String>)
        ensures
            match json_string_field(args@, "name"@) {
                Some(n) => r matches Ok(name) && name@ == n,
                None => r matches Err(e) && e@ == missing_arg("name"@),
            },
    {
        required_arg(args, "name")
    }

    /// The answer with a skill's text, found in `dir`.
    pub fn found(name: &str, dir: &str, content: &str) -> (r: String)
        ensures
            r@ == "Skill '"@ + name@ + "' from "@ + dir@ + ":\n\n"@ + content@,
    {
        let mut r = owned("Skill '");
        push_str(&mut r, name);
        push_str(&mut r, "' from ");
        push_str(&mut r, dir);
        push_str(&mut r, ":\n\n");
        push_str(&mut r, content);
        r
    }

    /// The answer when no skill of that name is installed.
    pub fn not_found(name: &str) -> (r: String)
        ensures
            r@ == "Skill '"@ + name@ + "' not found."@,
    {
        let mut r = owned("Skill '");
        push_str(&mut r, name);
        push_str(&mut r, "' not found.");
        r
    }
}

impl SkillListTool {
    /// The line of one skill: marked `✓` when it has a SKILL.md, `○` otherwise.
    pub fn entry(name: &str, has_skill_md: bool) -> (r: String)
        ensures
            r@ == "  "@ + (if has_skill_md { "✓"@ } else { "○"@ }) + " "@ + name@,
    {
        let mut r = owned("  ");
        push_str(&mut r, if has_skill_md { "✓" } else { "○" });
        push_str(&mut r, " ");
        push_str(&mut r, name);
        r
    }

    /// The section of one skills directory, labelled by the directory.
    pub fn section(label: &str, entries: &Vec<String>) -> (r: String)
        ensures
            r@ == label@ + ":\n"@ + join(string_views(entries@), "\n"@),
    {
        let mut r = owned(label);
        push_str(&mut r, ":\n");
        let body = join_strings(entries, "\n");
        push_str(&mut r, body.as_str());
        r
    }

    /// The answer from the sections of the directories that hold skills.
    pub fn answer(sections: &Vec<String>) -> (r: String)
        ensures
            r@ == if sections@.len() == 0 { "No skills found."@ } else { join(string_views(sections@), "\n\n"@) },
    {
        if sections.len() == 0 {
            owned("No skills found.")
        } else {
            join_strings(sections, "\n\n")
        }
    }
}

impl GlobTool {
    /// The pattern and the directory to search (`.` by default).
    pub fn request(args: &str) -> (r: Result<(String, String), String>)
        ensures
            match json_string_field(args@, "pattern"@) {
                Some(p) => r matches Ok((pattern, path)) && pattern@ == p
                    && path@ == match json_string_field(args@, "path"@) { Some(d) => d, None => "."@ },
                None => r matches Err(e) && e@ == missing_arg("pattern"@),
            },
    {
        let pattern = match required_arg(args, "pattern") {
            Ok(p) => p,
            Err(e) => return Err(e),
        };
        let path = match json_str_field(args, "path") {
            Some(p) => p,
            None => owned("."),
        };
        Ok((pattern, path))
    }

    /// The pattern searched: the pattern under the resolved directory.
    pub fn full_pattern(resolved: &str, pattern: &str) -> (r: String)
        ensures
            r@ == if resolved@.len() > 0 && resolved@.last() == '/' {
                resolved@ + pattern@
            } else {
                resolved@ + "/"@ + pattern@
            },
    {
        let cs = chars_of(resolved);
        let mut r = owned(resolved);
        if !(cs.len() > 0 && cs[cs.len() - 1] == '/') {
            push_str(&mut r, "/");
        }
        push_str(&mut r, pattern);
        r
    }

    /// The answer from the paths found.
    pub fn answer(pattern: &str, results: &Vec<String>) -> (r: String)
        ensures
            r@ == if results@.len() == 0 {
                "No files found matching '"@ + pattern@ + "'"@
            } else {
                join(string_views(results@), "\n"@)
            },
    {
        if results.len() == 0 {
            let mut r = owned("No files found matching '");
            push_str(&mut r, pattern);
            push_str(&mut r, "'");
            r
        } else {
            join_strings(results, "\n")
        }
    }
}

/// `regex::Regex`, carried inside a [`LinePattern`].
#[verifier::external_type_specification]
#[verifier::external_body]
pub struct ExRegex(regex::Regex);

/// `glob::Pattern`, carried inside a [`NamePattern`].
#[verifier::external_type_specification]
#[verifier::external_body]
pub struct ExGlobPattern(glob::Pattern);

/// A regular expression compiled from its source text.
pub struct LinePattern {
    source: String,
    re: regex::Regex,
}

impl View for LinePattern {
    type V = Seq<char>;

    closed spec fn view(&self) -> Seq<char> {
        self.source@
    }
}

/// A file-name glob compiled from its source text.
pub struct NamePattern {
    source: String,
    pattern: glob::Pattern,
}

impl View for NamePattern {
    type V = Seq<char>;

    closed spec fn view(&self) -> Seq<char> {
        self.source@
    }
}

/// The message of the error `regex::Regex::new` gives for `pattern`; `None`
/// when the pattern compiles.
pub uninterp spec fn regex_new_error(pattern: Seq<char>) -> Option<Seq<char>>;

/// Whether the regular expression `pattern` matches somewhere in `line`
/// (`regex::Regex::is_match`).
pub uninterp spec fn regex_is_match(pattern: Seq<char>, line: Seq<char>) -> bool;

/// The message of the error `glob::Pattern::new` gives for `pattern`; `None`
/// when the pattern compiles.
pub uninterp spec fn glob_new_error(pattern: Seq<char>) -> Option<Seq<char>>;

/// Whether the glob `pattern` matches the whole of `name`
/// (`glob::Pattern::matches`).
pub uninterp spec fn glob_is_match(pattern: Seq<char>, name: Seq<char>) -> bool;

/// Calls `regex::Regex::new`; an error is given as its message. The
/// contract only names the outcome.
#[verifier::external_body]
fn regex_new(pattern: &str) -> (r: Result<LinePattern, String>)
    ensures
        match r {
            Ok(p) => p@ == pattern@ && regex_new_error(pattern@) is None,
            Err(e) => regex_new_error(pattern@) == Some(e@),
        },
{
    match regex::Regex::new(pattern) {
        Ok(re) => Ok(LinePattern { source: pattern.to_string(), re }),
        Err(e) => Err(e.to_string()),
    }
}

/// Calls `regex::Regex::is_match` with the expression compiled from `p@`.
/// The contract only names the result.
#[verifier::external_body]
fn regex_matches(p: &LinePattern, line: &str) -> (r: bool)
    ensures
        r == regex_is_match(p@, line@),
{
    p.re.is_match(line)
}

/// Calls `glob::Pattern::new`; an error is given as its message. The
/// contract only names the outcome.
#[verifier::external_body]
fn glob_new(pattern: &str) -> (r: Result<NamePattern, String>)
    ensures
        match r {
            Ok(p) => p@ == pattern@ && glob_new_error(pattern@) is None,
            Err(e) => glob_new_error(pattern@) == Some(e@),
        },
{
    match glob::Pattern::new(pattern) {
        Ok(g) => Ok(NamePattern { source: pattern.to_string(), pattern: g }),
        Err(e) => Err(e.to_string()),
    }
}

/// Calls `glob::Pattern::matches` with the glob compiled from `p@`. The
/// contract only names the result.
#[verifier::external_body]
fn glob_matches(p: &NamePattern, name: &str) -> (r: bool)
    ensures
        r == glob_is_match(p@, name@),
{
    p.pattern.matches(name)
}

/// The match lines of a file at `path` whose lines are `ls`: each line the
/// pattern matches, with its number counted from 1, in order.
pub open spec fn grep_matches(path: Seq<char>, ls: Seq<Seq<char>>, pattern: Seq<char>) -> Seq<Seq<char>>
    decreases ls.len(),
{
    if ls.len() == 0 {
        Seq::empty()
    } else {
        let rest = grep_matches(path, ls.drop_last(), pattern);
        if regex_is_match(pattern, ls.last()) {
            rest.push(path + ":"@ + decimal(ls.len() as nat) + ": "@ + ls.last())
        } else {
            rest
        }
    }
}

impl LinePattern {
    /// Compiles the regular expression `pattern`; the error names it.
    pub fn compile(pattern: &str) -> (r: Result<LinePattern, String>)
        ensures
            match regex_new_error(pattern@) {
                None => r matches Ok(p) && p@ == pattern@,
                Some(m) => r matches Err(e) && e@ == "Invalid regex '"@ + pattern@ + "': "@ + m,
            },
    {
        match regex_new(pattern) {
            Ok(p) => Ok(p),
            Err(m) => {
                let mut e = owned("Invalid regex '");
                push_str(&mut e, pattern);
                push_str(&mut e, "': ");
                push_str(&mut e, m.as_str());
                Err(e)
            },
        }
    }

    /// Whether the expression matches somewhere in `line`.
    pub fn is_match(&self, line: &str) -> (r: bool)
        ensures
            r == regex_is_match(self@, line@),
    {
        regex_matches(self, line)
    }
}

impl NamePattern {
    /// Compiles the file-name glob `pattern`; the error names it.
    pub fn compile(pattern: &str) -> (r: Result<NamePattern, String>)
        ensures
            match glob_new_error(pattern@) {
                None => r matches Ok(p) && p@ == pattern@,
                Some(m) => r matches Err(e) && e@ == "Invalid include pattern '"@ + pattern@ + "': "@ + m,
            },
    {
        match glob_new(pattern) {
            Ok(p) => Ok(p),
            Err(m) => {
                let mut e = owned("Invalid include pattern '");
                push_str(&mut e, pattern);
                push_str(&mut e, "': ");
                push_str(&mut e, m.as_str());
                Err(e)
            },
        }
    }

    /// Whether the glob matches the whole file name `name`.
    pub fn matches(&self, name: &str) -> (r: bool)
        ensures
            r == glob_is_match(self@, name@),
    {
        glob_matches(self, name)
    }
}

impl GrepTool {
    /// The pattern to search for, where to search (`.` by default) and the
    /// file-name filter, if any.
    pub fn request(args: &str) -> (r: Result<(String, String, Option<String>), String>)
        ensures
            match json_string_field(args@, "pattern"@) {
                Some(p) => r matches Ok((pattern, path, filter)) && pattern@ == p
                    && path@ == match json_string_field(args@, "path"@) { Some(d) => d, None => "."@ }
                    && opt_view(filter) == json_string_field(args@, "include"@),
                None => r matches Err(e) && e@ == missing_arg("pattern"@),
            },
    {
        let pattern = match required_arg(args, "pattern") {
            Ok(p) => p,
            Err(e) => return Err(e),
        };
        let path = match json_str_field(args, "path") {
            Some(p) => p,
            None => owned("."),
        };
        let filter = json_str_field(args, "include");
        Ok((pattern, path, filter))
    }

    /// The search of one file's text: the match line of each line of
    /// `content` that `pattern` matches, in order.
    pub fn search_content(path: &str, content: &str, pattern: &LinePattern) -> (r: Vec<String>)
        ensures
            string_views(r@) == grep_matches(path@, lines(content@), pattern@),
    {
        let cs = chars_of(content);
        let ls = lines_exec(cs.as_slice());
        let ghost lv = views(ls@);
        let mut r: Vec<String> = Vec::new();
        let mut i: usize = 0;
        while i < ls.len()
            invariant
                i <= ls.len(),
                lv == views(ls@),
                lv == lines(content@),
                string_views(r@) == grep_matches(path@, lv.take(i as int), pattern@),
            decreases ls.len() - i,
        {
            let line = string_of(ls[i].as_slice());
            let ghost before = r@;
            proof {
                assert(lv.take(i as int + 1).drop_last() =~= lv.take(i as int));
                assert(lv.take(i as int + 1).last() == lv[i as int]);
            }
            if pattern.is_match(line.as_str()) {
                let n: usize = i + 1;
                let m = Self::match_line(path, n as u64, line.as_str());
                r.push(m);
                proof {
                    assert(string_views(r@) =~= string_views(before).push(m@));
                }
            }
            i = i + 1;
        }
        proof {
            assert(lv.take(ls.len() as int) =~= lv);
        }
        r
    }

    /// The line of one match: the file, the line number and the line.
    pub fn match_line(path: &str, line_number: u64, line: &str) -> (r: String)
        ensures
            r@ == path@ + ":"@ + decimal(line_number as nat) + ": "@ + line@,
    {
        let mut out: Vec<char> = Vec::new();
        append_str(&mut out, path);
        append_str(&mut out, ":");
        let d = decimal_exec(line_number);
        append_chars(&mut out, d.as_slice());
        append_str(&mut out, ": ");
        append_str(&mut out, line);
        string_of(out.as_slice())
    }

    /// The answer from the lines that matched.
    pub fn answer(pattern: &str, results: &Vec<String>) -> (r: String)
        ensures
            r@ == if results@.len() == 0 {
                "No matches found for '"@ + pattern@ + "'"@
            } else {
                join(string_views(results@), "\n"@)
            },
    {
        if results.len() == 0 {
            let mut r = owned("No matches found for '");
            push_str(&mut r, pattern);
            push_str(&mut r, "'");
            r
        } else {
            join_strings(results, "\n")
        }
    }
}

// ───────────────────────────── web_search ─────────────────────────────

/// The text between the first `start` in `text` and the first `end` after it.
pub open spec fn between(text: Seq<char>, start: Seq<char>, end: Seq<char>) -> Option<Seq<char>> {
    match find(text, start) {
        Some(i) => {
            let rem = text.skip(i + start.len());
            match find(rem, end) {
                Some(j) => Some(rem.take(j)),
                None => None,
            }
        },
        None => None,
    }
}

/// `s` without the copies of `c` at its start (`str::trim_start_matches`).
pub open spec fn trim_start_char(s: Seq<char>, c: char) -> Seq<char>
    decreases s.len(),
{
    if s.len() > 0 && s[0] == c {
        trim_start_char(s.drop_first(), c)
    } else {
        s
    }
}

/// The text or empty.
pub open spec fn or_empty(o: Option<Seq<char>>) -> Seq<char> {
    match o {
        Some(t) => t,
        None => Seq::empty(),
    }
}

/// The entry for the result that line `i` of the page starts, numbered
/// `count + 1`, if that line is a result's title of more than five bytes.
pub open spec fn result_entry(ls: Seq<Seq<char>>, i: int, count: nat) -> Option<Seq<char>> {
    let line = ls[i];
    if contains(line, "result__a"@) || contains(line, "result__title"@) {
        let title = trim(or_empty(between(line, ">"@, "</a>"@)));
        if title.len() > 0 && utf8_len(title) > 5 {
            let url = or_empty(between(line, "href=\""@, "\""@));
            let window = join(ls.skip(i).take(if ls.len() - i < 5 { ls.len() - i } else { 5 }), " "@);
            let snippet = take_chars(trim_start_char(or_empty(between(window, "result__snippet"@, "</a>"@)), '>'), 200);
            Some(
                decimal(count + 1) + ". "@ + title + "\n   URL: "@ + (if url.len() == 0 { "N/A"@ } else { url })
                    + "\n   "@ + (if snippet.len() == 0 { "No snippet available"@ } else { snippet }),
            )
        } else {
            None
        }
    } else {
        None
    }
}

/// The entries of the results found from line `i` on, `found` being those
/// found before, until `num` are found.
pub open spec fn results_from(ls: Seq<Seq<char>>, i: int, num: nat, found: Seq<Seq<char>>) -> Seq<Seq<char>>
    decreases ls.len() - i,
{
    if i < 0 || i >= ls.len() || found.len() >= num {
        found
    } else {
        match result_entry(ls, i, found.len()) {
            Some(e) => results_from(ls, i + 1, num, found.push(e)),
            None => results_from(ls, i + 1, num, found),
        }
    }
}

/// The answer of a search for `query` whose result page is `html`, listing at
/// most `num` results.
pub open spec fn search_answer(query: Seq<char>, html: Seq<char>, num: nat) -> Seq<char> {
    let results = results_from(lines(html), 0, num, Seq::empty());
    if results.len() == 0 {
        "Search results for '"@ + query + "':\n\nNo structured results found. The search engine may have returned results in a format that couldn't be parsed.\n\nRaw HTML length: "@
            + decimal(utf8_len(html)) + " bytes"@
    } else {
        "Search results for '"@ + query + "':\n\n"@ + join(results, "\n\n"@)
    }
}

/// The text between `start` and `end` in `text`.
fn between_exec(text: &[char], start: &str, end: &str) -> (r: Option<Vec<char>>)
    ensures
        match r {
            Some(v) => between(text@, start@, end@) == Some(v@),
            None => between(text@, start@, end@) is None,
        },
{
    let st = chars_of(start);
    let en = chars_of(end);
    match find_exec(text, st.as_slice()) {
        None => None,
        Some(i) => {
            proof {
                lemma_find_from_range(text@, st@, 0);
                assert(find(text@, st@) == find_from(text@, st@, 0));
            }
            let sl = st.len();
            assert(i + sl <= text.len());
            let rem = slice_vec(text, i + sl, text.len());
            assert(rem@ =~= text@.skip(i + sl));
            match find_exec(rem.as_slice(), en.as_slice()) {
                None => None,
                Some(j) => {
                    proof {
                        lemma_find_from_range(rem@, en@, 0);
                        assert(find(rem@, en@) == find_from(rem@, en@, 0));
                    }
                    let piece = slice_vec(rem.as_slice(), 0, j);
                    assert(piece@ =~= rem@.take(j as int));
                    Some(piece)
                },
            }
        },
    }
}

fn trim_start_char_exec(s: &[char], c: char) -> (r: Vec<char>)
    ensures
        r@ == trim_start_char(s@, c),
{
    let mut k: usize = 0;
    assert(s@.skip(0) =~= s@);
    while k < s.len() && s[k] == c
        invariant
            k <= s.len(),
            trim_start_char(s@, c) == trim_start_char(s@.skip(k as int), c),
        decreases s.len() - k,
    {
        assert(s@.skip(k as int).drop_first() =~= s@.skip(k + 1));
        k += 1;
    }
    let r = slice_vec(s, k, s.len());
    assert(r@ =~= s@.skip(k as int));
    r
}

fn opt_or_empty(o: Option<Vec<char>>) -> (r: Vec<char>)
    ensures
        r@ == match o { Some(v) => v@, None => Seq::<char>::empty() },
{
    match o {
        Some(v) => v,
        None => Vec::new(),
    }
}

/// The entry for line `i`, if it starts a result.
fn result_entry_exec(ls: &Vec<Vec<char>>, i: usize, count: usize) -> (r: Option<Vec<char>>)
    requires
        i < ls.len(),
        count < usize::MAX,
    ensures
        match r {
            Some(v) => result_entry(views(ls@), i as int, count as nat) == Some(v@),
            None => result_entry(views(ls@), i as int, count as nat) is None,
        },
{
    let ghost lv = views(ls@);
    let line = ls[i].as_slice();
    assert(lv[i as int] == line@);
    let a = chars_of("result__a");
    let t = chars_of("result__title");
    if !(crate::text::contains_exec(line, a.as_slice()) || crate::text::contains_exec(line, t.as_slice())) {
        return None;
    }
    let raw_title = opt_or_empty(between_exec(line, ">", "</a>"));
    let title = crate::text::trim_exec(raw_title.as_slice());
    let title_s = string_of(title.as_slice());
    let ts = title_s.as_str();
    let title_bytes = ts.as_bytes().len();
    proof {
        crate::text::lemma_str_len(ts);
    }
    if !(title.len() > 0 && title_bytes > 5) {
        return None;
    }
    let url = opt_or_empty(between_exec(line, "href=\"", "\""));
    let n = if ls.len() - i < 5 { ls.len() - i } else { 5 };
    let mut win: Vec<Vec<char>> = Vec::new();
    let mut k: usize = 0;
    while k < n
        invariant
            k <= n,
            i + n <= ls.len(),
            lv == views(ls@),
            views(win@) == lv.skip(i as int).take(k as int),
        decreases n - k,
    {
        let ghost before = win@;
        let piece = slice_vec(ls[i + k].as_slice(), 0, ls[i + k].len());
        assert(piece@ =~= lv[i + k]);
        win.push(piece);
        proof {
            crate::text::lemma_views_push(before, piece);
            assert(lv.skip(i as int).take(k + 1) =~= lv.skip(i as int).take(k as int).push(lv[i + k]));
        }
        k += 1;
    }
    let sp = chars_of(" ");
    let window = crate::text::join_exec(&win, sp.as_slice());
    let raw_snip = opt_or_empty(between_exec(window.as_slice(), "result__snippet", "</a>"));
    let trimmed_snip = trim_start_char_exec(raw_snip.as_slice(), '>');
    let snippet = crate::text::take_chars_exec(trimmed_snip.as_slice(), 200);
    let mut out: Vec<char> = Vec::new();
    let d = decimal_exec((count + 1) as u64);
    append_chars(&mut out, d.as_slice());
    append_str(&mut out, ". ");
    append_chars(&mut out, title.as_slice());
    append_str(&mut out, "\n   URL: ");
    if url.len() == 0 {
        append_str(&mut out, "N/A");
    } else {
        append_chars(&mut out, url.as_slice());
    }
    append_str(&mut out, "\n   ");
    if snippet.len() == 0 {
        append_str(&mut out, "No snippet available");
    } else {
        append_chars(&mut out, snippet.as_slice());
    }
    Some(out)
}

/// `query` percent-encoded as `urlencoding::encode` does it.
pub uninterp spec fn url_encoded(query: Seq<char>) -> Seq<char>;

/// A character that `urlencoding::encode` keeps: an ASCII letter or digit, or
/// one of `-`, `.`, `_`, `~`.
pub open spec fn url_safe(c: char) -> bool {
    ('0' <= c && c <= '9') || ('A' <= c && c <= 'Z') || ('a' <= c && c <= 'z') || c == '-' || c == '.'
        || c == '_' || c == '~'
}

/// The upper-case hexadecimal digit for `d` (below 16).
pub open spec fn hex_digit(d: u32) -> char {
    if d < 10 {
        ((48 + d) as u32) as char
    } else {
        ((55 + d) as u32) as char
    }
}

/// An ASCII character as `urlencoding::encode` writes it: kept when safe,
/// else `%` and the two upper-case hexadecimal digits of its byte.
pub open spec fn url_ascii_char(c: char) -> Seq<char> {
    if url_safe(c) {
        seq![c]
    } else {
        seq!['%', hex_digit((c as u32) / 16), hex_digit((c as u32) % 16)]
    }
}

/// ASCII text as `urlencoding::encode` writes it.
pub open spec fn url_ascii(s: Seq<char>) -> Seq<char>
    decreases s.len(),
{
    if s.len() == 0 {
        Seq::empty()
    } else {
        url_ascii(s.drop_last()) + url_ascii_char(s.last())
    }
}

/// Calls `urlencoding::encode`. The contract names the result; for ASCII
/// text, as the crate's documentation and source say, each letter, digit and
/// `-`, `.`, `_`, `~` is kept and every other byte becomes `%` and two
/// upper-case hexadecimal digits.
#[verifier::external_body]
fn url_encode(query: &str) -> (r: String)
    ensures
        r@ == url_encoded(query@),
        all_ascii(query@) ==> r@ == url_ascii(query@),
{
    urlencoding::encode(query).into_owned()
}

impl WebSearchTool {
    /// The query and how many results to list: 5 by default, at most 10.
    pub fn request(args: &str) -> (r: Result<(String, u64), String>)
        ensures
            match json_string_field(args@, "query"@) {
                Some(q) => r matches Ok((query, num)) && query@ == q && num == ({
                    let n = match json_u64_field(args@, "num_results"@) { Some(n) => n, None => 5 };
                    if n < 10 { n } else { 10 }
                }),
                None => r matches Err(e) && e@ == missing_arg("query"@),
            },
    {
        let query = match required_arg(args, "query") {
            Ok(q) => q,
            Err(e) => return Err(e),
        };
        let n = match json_u64(args, "num_results") {
            Some(n) => n,
            None => 5,
        };
        Ok((query, if n < 10 { n } else { 10 }))
    }

    /// The address of the search page for `query`.
    pub fn search_url(query: &str) -> (r: String)
        ensures
            r@ == "https://html.duckduckgo.com/html/?q="@ + url_encoded(query@),
            all_ascii(query@) ==> r@ == "https://html.duckduckgo.com/html/?q="@ + url_ascii(query@),
    {
        let mut r = owned("https://html.duckduckgo.com/html/?q=");
        let e = url_encode(query);
        push_str(&mut r, e.as_str());
        r
    }

    /// The answer from the result page `html` of a search for `query`: up to
    /// `num` results, each with its title, address and snippet.
    pub fn answer(query: &str, html: &str, num: usize) -> (r: String)
        ensures
            r@ == search_answer(query@, html@, num as nat),
    {
        let cs = chars_of(html);
        let ls = lines_exec(cs.as_slice());
        let ghost lv = views(ls@);
        let mut results: Vec<Vec<char>> = Vec::new();
        let mut i: usize = 0;
        assert(views(results@) =~= Seq::<Seq<char>>::empty());
        while i < ls.len() && results.len() < num
            invariant
                i <= ls.len(),
                lv == views(ls@),
                lv == lines(html@),
                results.len() <= i,
                results_from(lv, 0, num as nat, Seq::empty()) == results_from(lv, i as int, num as nat, views(results@)),
            decreases ls.len() - i,
        {
            match result_entry_exec(&ls, i, results.len()) {
                Some(e) => {
                    let ghost before = results@;
                    results.push(e);
                    proof {
                        crate::text::lemma_views_push(before, e);
                    }
                },
                None => {},
            }
            i += 1;
        }
        let mut out = owned("Search results for '");
        push_str(&mut out, query);
        if results.len() == 0 {
            push_str(&mut out, "':\n\nNo structured results found. The search engine may have returned results in a format that couldn't be parsed.\n\nRaw HTML length: ");
            let hs = html;
            let n = hs.as_bytes().len();
            proof {
                crate::text::lemma_str_len(hs);
            }
            let d = decimal_exec(n as u64);
            let ds = string_of(d.as_slice());
            push_str(&mut out, ds.as_str());
            push_str(&mut out, " bytes");
        } else {
            push_str(&mut out, "':\n\n");
            let sep = chars_of("\n\n");
            let body = crate::text::join_exec(&results, sep.as_slice());
            let bs = string_of(body.as_slice());
            push_str(&mut out, bs.as_str());
        }
        out
    }
}

// ───────────────────────────── the tool sets ─────────────────────────────

/// The names of the built-in tools, in the order they are registered.
pub open spec fn default_tool_set() -> Seq<Seq<char>> {
    seq![
        "shell"@,
        "file_read"@,
        "file_write"@,
        "file_edit"@,
        "grep"@,
        "glob"@,
        "ls"@,
        "git_diff"@,
        "git_status"@,
        "git_commit"@,
        "skill_list"@,
        "skill_read"@,
        "web_search"@,
    ]
}

/// The names of the tools an exploring subagent gets, in the order they are
/// registered.
pub open spec fn readonly_tool_set() -> Seq<Seq<char>> {
    seq![
        "file_read"@,
        "grep"@,
        "glob"@,
        "ls"@,
        "git_diff"@,
        "git_status"@,
        "skill_list"@,
        "skill_read"@,
    ]
}

/// The views of string slices.
pub open spec fn str_views(v: Seq<&str>) -> Seq<Seq<char>> {
    v.map_values(|s: &str| s@)
}

/// The names of the built-in tools, in the order they are registered.
pub fn default_tool_names() -> (r: Vec<&'static str>)
    ensures
        str_views(r@) == default_tool_set(),
{
    let r: Vec<&'static str> = vec![
        "shell",
        "file_read",
        "file_write",
        "file_edit",
        "grep",
        "glob",
        "ls",
        "git_diff",
        "git_status",
        "git_commit",
        "skill_list",
        "skill_read",
        "web_search",
    ];
    assert(str_views(r@) =~= default_tool_set());
    r
}

/// The names of the tools an exploring subagent gets: those that only read.
pub fn readonly_tool_names() -> (r: Vec<&'static str>)
    ensures
        str_views(r@) == readonly_tool_set(),
{
    let r: Vec<&'static str> = vec![
        "file_read",
        "grep",
        "glob",
        "ls",
        "git_diff",
        "git_status",
        "skill_list",
        "skill_read",
    ];
    assert(str_views(r@) =~= readonly_tool_set());
    r
}

/// An exploring subagent gets exactly the built-in tools that only read:
/// each of its tools is built in and only reads, and each built-in tool that
/// only reads is among its tools.
pub proof fn law_explore_gets_exactly_the_read_only_tools()
    ensures
        forall|i: int| 0 <= i < readonly_tool_set().len() ==> default_tool_set().contains(
            #[trigger] readonly_tool_set()[i],
        ) && is_read_only(readonly_tool_set()[i]),
        forall|i: int| 0 <= i < default_tool_set().len() && is_read_only(#[trigger] default_tool_set()[i])
            ==> readonly_tool_set().contains(default_tool_set()[i]),
{
    let d = default_tool_set();
    let ro = readonly_tool_set();
    let p = read_only_tools();
    reveal_strlit("shell");
    reveal_strlit("file_read");
    reveal_strlit("file_write");
    reveal_strlit("file_edit");
    reveal_strlit("grep");
    reveal_strlit("glob");
    reveal_strlit("ls");
    reveal_strlit("git_diff");
    reveal_strlit("git_status");
    reveal_strlit("git_commit");
    reveal_strlit("skill_list");
    reveal_strlit("skill_read");
    reveal_strlit("web_search");
    assert(d[1] == ro[0] && p[0] == ro[0]);
    assert(d[4] == ro[1] && p[1] == ro[1]);
    assert(d[5] == ro[2] && p[2] == ro[2]);
    assert(d[6] == ro[3] && p[3] == ro[3]);
    assert(d[7] == ro[4] && p[5] == ro[4]);
    assert(d[8] == ro[5] && p[4] == ro[5]);
    assert(d[10] == ro[6] && p[6] == ro[6]);
    assert(d[11] == ro[7] && p[7] == ro[7]);
    assert forall|i: int| 0 <= i < d.len() && is_read_only(#[trigger] d[i]) implies ro.contains(d[i]) by {
        let k = choose|k: int| 0 <= k < p.len() && p[k] == d[i];
        assert(k == 0 || k == 1 || k == 2 || k == 3 || k == 4 || k == 5 || k == 6 || k == 7);
        if i == 0 || i == 2 || i == 3 || i == 9 || i == 12 {
            assert(d[i].len() != p[k].len() || d[i][0] != p[k][0] || d[i][5] != p[k][5] || d[i][4] != p[k][4]);
        }
    }
}

} // verus!
