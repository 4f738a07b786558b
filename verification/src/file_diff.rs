//! Changes to files as the tools report them, unified diffs, and their
//! colouring for the terminal.
use vstd::prelude::*;
use crate::text::{
    append_chars, append_str, chars_of, contains, find, find_from, find_exec, is_whitespace,
    is_whitespace_exec, lemma_find_from_range, lemma_string_views_push, lines, lines_exec, owned,
    push_str, slice_vec, starts_with, starts_with_exec, str_contains, string_of, string_views,
    views,
};

verus! {

/// How a file changed.
#[derive(Debug, Clone, Copy, PartialEq, Eq, Structural)]
pub enum ChangeType {
    Added,
    Modified,
    Deleted,
}

/// A file that a tool changed.
#[derive(Debug, Clone)]
pub struct FileChange {
    pub path: String,
    pub change_type: ChangeType,
    pub diff: Option<String>,
}

/// Diffs and reports of changed files.
pub struct FileDiff;

/// The texts of the hunks of the unified diff of `old` and `new`, line by
/// line, with `radius` lines of context, as `similar` writes them.
pub uninterp spec fn unified_hunk_texts(old: Seq<char>, new: Seq<char>, radius: nat) -> Seq<Seq<char>>;

/// Calls `similar::TextDiff::from_lines`, then `unified_diff`,
/// `context_radius` and `iter_hunks`, and writes each hunk with `Display`.
/// The contract only names the result.
#[verifier::external_body]
fn unified_hunks(old: &str, new: &str, radius: usize) -> (r: Vec<String>)
    ensures
        string_views(r@) == unified_hunk_texts(old@, new@, radius as nat),
{
    let diff = similar::TextDiff::from_lines(old, new);
    let mut udiff = diff.unified_diff();
    udiff.context_radius(radius);
    udiff.iter_hunks().map(|h| h.to_string()).collect()
}

/// Each piece followed by a newline, laid end to end.
pub open spec fn with_newlines(pieces: Seq<Seq<char>>) -> Seq<char>
    decreases pieces.len(),
{
    if pieces.len() == 0 {
        Seq::empty()
    } else {
        with_newlines(pieces.drop_last()) + pieces.last() + "\n"@
    }
}

/// The unified diff of a file at `path`: the two headers, then the hunks with
/// three lines of context.
pub open spec fn file_diff_text(old: Seq<char>, new: Seq<char>, path: Seq<char>) -> Seq<char> {
    "--- a/"@ + path + "\n"@ + "+++ b/"@ + path + "\n"@ + with_newlines(unified_hunk_texts(old, new, 3))
}

/// A character that may stand in a reported path: anything but whitespace
/// and a comma.
pub open spec fn path_char(c: char) -> bool {
    !is_whitespace(c) && c != ','
}

/// A reported path without the full stop that may end the sentence naming
/// it.
pub open spec fn without_stop(p: Seq<char>) -> Seq<char> {
    if p.len() > 0 && p.last() == '.' {
        p.drop_last()
    } else {
        p
    }
}

/// The longest prefix of `s` made of path characters.
pub open spec fn take_path(s: Seq<char>) -> Seq<char>
    decreases s.len(),
{
    if s.len() == 0 || !path_char(s[0]) {
        Seq::empty()
    } else {
        seq![s[0]] + take_path(s.drop_first())
    }
}

/// The phrases after which a tool names the file it changed, in the order they
/// are tried.
pub open spec fn success_patterns() -> Seq<Seq<char>> {
    seq![
        "Successfully written to "@,
        "Successfully written: "@,
        "Successfully edited "@,
        "Successfully edited: "@,
        "Successfully deleted "@,
        "Deleted file: "@,
        "Deleted file "@,
    ]
}

/// The path named after the first pattern, at or after index `k`, that occurs
/// in `line` and is followed by a non-empty path.
pub open spec fn path_from(line: Seq<char>, k: int) -> Option<Seq<char>>
    decreases success_patterns().len() - k,
{
    if k < 0 || k >= success_patterns().len() {
        None
    } else {
        let p = success_patterns()[k];
        match find(line, p) {
            Some(pos) => {
                let path = without_stop(take_path(line.skip(pos + p.len())));
                if path.len() > 0 {
                    Some(path)
                } else {
                    path_from(line, k + 1)
                }
            },
            None => path_from(line, k + 1),
        }
    }
}

/// The change a line of tool output reports, if any.
pub open spec fn change_of(line: Seq<char>) -> Option<(Seq<char>, ChangeType)> {
    if contains(line, "Successfully written"@) || contains(line, "Successfully edited"@) {
        match path_from(line, 0) {
            Some(p) => Some(
                (
                    p,
                    if contains(line, "Successfully written"@) {
                        ChangeType::Added
                    } else {
                        ChangeType::Modified
                    },
                ),
            ),
            None => None,
        }
    } else if contains(line, "Successfully deleted"@) || contains(line, "Deleted file"@) {
        match path_from(line, 0) {
            Some(p) => Some((p, ChangeType::Deleted)),
            None => None,
        }
    } else {
        None
    }
}

/// The changes that the lines report, in order.
pub open spec fn changes_of(ls: Seq<Seq<char>>) -> Seq<(Seq<char>, ChangeType)>
    decreases ls.len(),
{
    if ls.len() == 0 {
        Seq::empty()
    } else {
        match change_of(ls.last()) {
            Some(c) => changes_of(ls.drop_last()).push(c),
            None => changes_of(ls.drop_last()),
        }
    }
}

/// Path and kind of each change, none of which carries a diff.
pub open spec fn changes_view(v: Seq<FileChange>) -> Seq<(Seq<char>, ChangeType)> {
    v.map_values(|c: FileChange| (c.path@, c.change_type))
}

/// How a line of a diff is shown: added lines green, removed lines red, hunk
/// headers cyan, each followed by a newline.
pub open spec fn colored_line(l: Seq<char>) -> Seq<char> {
    if starts_with(l, "+"@) && !starts_with(l, "+++"@) {
        "\x1b[32m"@ + l + "\x1b[0m\n"@
    } else if starts_with(l, "-"@) && !starts_with(l, "---"@) {
        "\x1b[31m"@ + l + "\x1b[0m\n"@
    } else if starts_with(l, "@@"@) {
        "\x1b[36m"@ + l + "\x1b[0m\n"@
    } else {
        l + "\n"@
    }
}

/// The coloured lines laid end to end.
pub open spec fn colored_lines(ls: Seq<Seq<char>>) -> Seq<char>
    decreases ls.len(),
{
    if ls.len() == 0 {
        Seq::empty()
    } else {
        colored_lines(ls.drop_last()) + colored_line(ls.last())
    }
}

/// The path at the start of `s`.
fn take_path_exec(s: &[char], from: usize) -> (r: Vec<char>)
    requires
        from <= s.len(),
    ensures
        r@ == take_path(s@.skip(from as int)),
{
    let mut i = from;
    let ghost start = s@.skip(from as int);
    while i < s.len()
        invariant_except_break
            from <= i <= s.len(),
            take_path(start) == s@.subrange(from as int, i as int) + take_path(s@.skip(i as int)),
        ensures
            from <= i <= s.len(),
            take_path(start) == s@.subrange(from as int, i as int),
        decreases s.len() - i,
    {
        let c = s[i];
        let ghost rest = s@.skip(i as int);
        assert(rest[0] == c);
        assert(rest.drop_first() =~= s@.skip(i + 1));
        if is_whitespace_exec(c) || c == ',' {
            assert(take_path(rest) == Seq::<char>::empty());
            assert(s@.subrange(from as int, i as int) + Seq::<char>::empty() =~= s@.subrange(from as int, i as int));
            break;
        }
        assert(s@.subrange(from as int, i as int) + (seq![c] + take_path(s@.skip(i + 1))) =~= s@.subrange(
            from as int,
            i + 1,
        ) + take_path(s@.skip(i + 1)));
        i += 1;
        if i == s.len() {
            assert(s@.skip(i as int) =~= Seq::<char>::empty());
            assert(s@.subrange(from as int, i as int) + Seq::<char>::empty() =~= s@.subrange(from as int, i as int));
        }
    }
    assert(s@.skip(from as int) =~= start);
    slice_vec(s, from, i)
}

impl FileDiff {
    /// The unified diff between two versions of the file at `path`.
    pub fn diff(old: &str, new: &str, path: &str) -> (r: String)
        ensures
            r@ == file_diff_text(old@, new@, path@),
    {
        let hunks = unified_hunks(old, new, 3);
        let mut out = owned("--- a/");
        push_str(&mut out, path);
        push_str(&mut out, "\n");
        push_str(&mut out, "+++ b/");
        push_str(&mut out, path);
        push_str(&mut out, "\n");
        let ghost head = out@;
        let ghost hs = string_views(hunks@);
        let mut i: usize = 0;
        assert(hs.take(0) =~= Seq::<Seq<char>>::empty());
        while i < hunks.len()
            invariant
                i <= hunks.len(),
                hs == string_views(hunks@),
                out@ == head + with_newlines(hs.take(i as int)),
            decreases hunks.len() - i,
        {
            push_str(&mut out, hunks[i].as_str());
            push_str(&mut out, "\n");
            assert(hs.take(i + 1).drop_last() =~= hs.take(i as int));
            assert(out@ =~= head + with_newlines(hs.take(i + 1)));
            i += 1;
        }
        assert(hs.take(hunks.len() as int) =~= hs);
        assert(out@ =~= file_diff_text(old@, new@, path@));
        out
    }

    /// The path that a line of tool output names as changed, if any.
    pub fn extract_path_from_success(line: &str) -> (r: Option<String>)
        ensures
            match r {
                Some(p) => path_from(line@, 0) == Some(p@),
                None => path_from(line@, 0) is None,
            },
    {
        let cs = chars_of(line);
        let patterns: [&str; 7] = [
            "Successfully written to ",
            "Successfully written: ",
            "Successfully edited ",
            "Successfully edited: ",
            "Successfully deleted ",
            "Deleted file: ",
            "Deleted file ",
        ];
        let mut k: usize = 0;
        while k < 7
            invariant
                k <= 7,
                cs@ == line@,
                forall|j: int| 0 <= j < 7 ==> (#[trigger] patterns@[j])@ == success_patterns()[j],
                path_from(line@, 0) == path_from(line@, k as int),
            decreases 7 - k,
        {
            let pat = chars_of(patterns[k]);
            assert(pat@ == success_patterns()[k as int]);
            match find_exec(cs.as_slice(), pat.as_slice()) {
                Some(pos) => {
                    proof {
                        lemma_find_from_range(cs@, pat@, 0);
                        assert(find(cs@, pat@) == find_from(cs@, pat@, 0));
                        assert(pos + pat@.len() <= cs@.len());
                    }
                    let plen = pat.len();
                    assert(pos + plen <= cs.len());
                    let mut path = take_path_exec(cs.as_slice(), pos + plen);
                    if path.len() > 0 && path[path.len() - 1] == '.' {
                        let ghost full = path@;
                        path.pop();
                        assert(path@ =~= full.drop_last());
                    }
                    if path.len() > 0 {
                        return Some(string_of(path.as_slice()));
                    }
                },
                None => {},
            }
            k += 1;
        }
        None
    }

    /// The files that tool output reports as written, edited or deleted, in
    /// the order of its lines.
    pub fn extract_changes(output: &str) -> (r: Vec<FileChange>)
        ensures
            changes_view(r@) == changes_of(lines(output@)),
            forall|i: int| 0 <= i < r.len() ==> (#[trigger] r@[i]).diff is None,
    {
        let cs = chars_of(output);
        let ls = lines_exec(cs.as_slice());
        let ghost lv = views(ls@);
        let mut changes: Vec<FileChange> = Vec::new();
        let mut i: usize = 0;
        while i < ls.len()
            invariant
                i <= ls.len(),
                lv == views(ls@),
                lv == lines(output@),
                changes_view(changes@) == changes_of(lv.take(i as int)),
                forall|j: int| 0 <= j < changes.len() ==> (#[trigger] changes@[j]).diff is None,
            decreases ls.len() - i,
        {
            let line = string_of(ls[i].as_slice());
            let l = line.as_str();
            assert(lv.take(i + 1).drop_last() =~= lv.take(i as int));
            assert(lv.take(i + 1).last() == l@);
            let written = str_contains(l, "Successfully written");
            let edited = str_contains(l, "Successfully edited");
            if written || edited {
                if let Some(path) = Self::extract_path_from_success(l) {
                    let change_type = if written { ChangeType::Added } else { ChangeType::Modified };
                    let ghost before = changes@;
                    let c = FileChange { path, change_type, diff: None };
                    changes.push(c);
                    assert(changes_view(changes@) =~= changes_view(before).push((c.path@, c.change_type)));
                }
            } else if str_contains(l, "Successfully deleted") || str_contains(l, "Deleted file") {
                if let Some(path) = Self::extract_path_from_success(l) {
                    let ghost before = changes@;
                    let c = FileChange { path, change_type: ChangeType::Deleted, diff: None };
                    changes.push(c);
                    assert(changes_view(changes@) =~= changes_view(before).push((c.path@, c.change_type)));
                }
            }
            i += 1;
        }
        assert(lv.take(ls.len() as int) =~= lv);
        changes
    }

    /// Colours the lines of a diff for the terminal.
    pub fn format_diff_colored(diff: &str) -> (r: String)
        ensures
            r@ == colored_lines(lines(diff@)),
    {
        let cs = chars_of(diff);
        let ls = lines_exec(cs.as_slice());
        let ghost lv = views(ls@);
        let mut out: Vec<char> = Vec::new();
        let mut i: usize = 0;
        while i < ls.len()
            invariant
                i <= ls.len(),
                lv == views(ls@),
                lv == lines(diff@),
                out@ == colored_lines(lv.take(i as int)),
            decreases ls.len() - i,
        {
            let l = ls[i].as_slice();
            assert(lv.take(i + 1).drop_last() =~= lv.take(i as int));
            assert(lv.take(i + 1).last() == l@);
            let plus = chars_of("+");
            let plus3 = chars_of("+++");
            let minus = chars_of("-");
            let minus3 = chars_of("---");
            let at = chars_of("@@");
            let ghost before = out@;
            if starts_with_exec(l, plus.as_slice()) && !starts_with_exec(l, plus3.as_slice()) {
                append_str(&mut out, "\x1b[32m");
                append_chars(&mut out, l);
                append_str(&mut out, "\x1b[0m\n");
            } else if starts_with_exec(l, minus.as_slice()) && !starts_with_exec(l, minus3.as_slice()) {
                append_str(&mut out, "\x1b[31m");
                append_chars(&mut out, l);
                append_str(&mut out, "\x1b[0m\n");
            } else if starts_with_exec(l, at.as_slice()) {
                append_str(&mut out, "\x1b[36m");
                append_chars(&mut out, l);
                append_str(&mut out, "\x1b[0m\n");
            } else {
                append_chars(&mut out, l);
                append_str(&mut out, "\n");
            }
            assert(out@ =~= before + colored_line(l@));
            i += 1;
        }
        assert(lv.take(ls.len() as int) =~= lv);
        string_of(out.as_slice())
    }
}

} // verus!
