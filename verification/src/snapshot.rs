//! Snapshots of the work tree kept in a shadow git repository: reading what
//! git reports about them. Running git is left to the application.
use vstd::prelude::*;
use crate::text::{
    append_chars, append_str, chars_of, find_char_exec, find_char_from, lemma_find_char_from_range,
    lines, lines_exec, parse_u32, parsed_u32, slice_vec, starts_with, starts_with_exec, string_of,
    string_views, views,
};

verus! {

/// The files changed in a snapshot.
#[derive(Debug, Clone)]
pub struct SnapshotPatch {
    pub hash: String,
    pub files: Vec<String>,
}

/// How a file changed between two snapshots.
#[derive(Debug, Clone, Copy, PartialEq, Eq, Structural)]
pub enum SnapshotDiffStatus {
    Added,
    Deleted,
    Modified,
}

/// The change of one file between two snapshots.
#[derive(Debug, Clone)]
pub struct SnapshotFileDiff {
    pub file: String,
    pub patch: String,
    pub additions: u32,
    pub deletions: u32,
    pub status: Option<SnapshotDiffStatus>,
}

/// The parts of `s` around its first two tabs (`str::splitn(3, '\t')`).
pub open spec fn split3(s: Seq<char>) -> Seq<Seq<char>> {
    match find_char_from(s, '\t', 0) {
        None => seq![s],
        Some(i) => {
            let rest = s.skip(i + 1);
            match find_char_from(rest, '\t', 0) {
                None => seq![s.take(i), rest],
                Some(j) => seq![s.take(i), rest.take(j), rest.skip(j + 1)],
            }
        },
    }
}

/// The status that a `--name-status` code starts with.
pub open spec fn status_of_code(code: Seq<char>) -> Option<SnapshotDiffStatus> {
    if code.len() == 0 {
        None
    } else if code[0] == 'A' {
        Some(SnapshotDiffStatus::Added)
    } else if code[0] == 'D' {
        Some(SnapshotDiffStatus::Deleted)
    } else if code[0] == 'M' {
        Some(SnapshotDiffStatus::Modified)
    } else {
        None
    }
}

/// The file and status that each line of `git diff --name-status` gives, in
/// order: the last field names the file.
pub open spec fn name_statuses(ls: Seq<Seq<char>>) -> Seq<(Seq<char>, Option<SnapshotDiffStatus>)>
    decreases ls.len(),
{
    if ls.len() == 0 {
        Seq::empty()
    } else {
        let prev = name_statuses(ls.drop_last());
        let l = ls.last();
        let parts = split3(l);
        if l.len() > 0 && parts.len() >= 2 {
            prev.push((parts.last(), status_of_code(parts[0])))
        } else {
            prev
        }
    }
}

/// The value stored last under `key` in `entries`, as a map that later
/// entries overwrite would hold it.
pub open spec fn lookup<V>(entries: Seq<(Seq<char>, V)>, key: Seq<char>) -> Option<V>
    decreases entries.len(),
{
    if entries.len() == 0 {
        None
    } else if entries.last().0 == key {
        Some(entries.last().1)
    } else {
        lookup(entries.drop_last(), key)
    }
}

/// The file that a `+++` line names: after `+++ b/`, or else after `+++ `.
pub open spec fn plus_path(line: Seq<char>) -> Seq<char> {
    if starts_with(line, "+++ b/"@) {
        line.skip(6)
    } else if starts_with(line, "+++ "@) {
        line.skip(4)
    } else {
        Seq::empty()
    }
}

/// Where the cutting of a diff into per-file patches stands: the patches
/// finished, the file of the current patch, and the current patch.
pub ghost struct PatchState {
    pub done: Seq<(Seq<char>, Seq<char>)>,
    pub file: Option<Seq<char>>,
    pub patch: Seq<char>,
}

/// The state after one more line of `git diff`.
pub open spec fn patch_step(st: PatchState, line: Seq<char>) -> PatchState {
    let l = line + "\n"@;
    if starts_with(line, "diff --git"@) {
        PatchState {
            done: match st.file {
                Some(f) => st.done.push((f, st.patch)),
                None => st.done,
            },
            file: None,
            patch: l,
        }
    } else if starts_with(line, "+++"@) {
        let p = plus_path(line);
        PatchState {
            done: st.done,
            file: if st.file is None || starts_with(p, "b/"@) {
                Some(if starts_with(p, "b/"@) { p.skip(2) } else { p })
            } else {
                st.file
            },
            patch: st.patch + l,
        }
    } else {
        PatchState { done: st.done, file: st.file, patch: st.patch + l }
    }
}

/// The state after the lines `ls`.
pub open spec fn patch_run(ls: Seq<Seq<char>>) -> PatchState
    decreases ls.len(),
{
    if ls.len() == 0 {
        PatchState { done: Seq::empty(), file: None, patch: Seq::empty() }
    } else {
        patch_step(patch_run(ls.drop_last()), ls.last())
    }
}

/// The patch of each file that `git diff` shows, in order.
pub open spec fn file_patches(diff: Seq<char>) -> Seq<(Seq<char>, Seq<char>)> {
    let st = patch_run(lines(diff));
    match st.file {
        Some(f) => st.done.push((f, st.patch)),
        None => st.done,
    }
}

/// The change of the file that a line of `git diff --numstat` reports, with
/// its patch and status, when the line has its three fields.
pub open spec fn numstat_entry(
    line: Seq<char>,
    patches: Seq<(Seq<char>, Seq<char>)>,
    statuses: Seq<(Seq<char>, Option<SnapshotDiffStatus>)>,
) -> Option<(Seq<char>, Seq<char>, u32, u32, Option<SnapshotDiffStatus>)> {
    let parts = split3(line);
    if line.len() == 0 || parts.len() < 3 {
        None
    } else {
        let file = parts[2];
        Some(
            (
                file,
                match lookup(patches, file) {
                    Some(p) => p,
                    None => Seq::empty(),
                },
                match parsed_u32(parts[0]) {
                    Some(n) => n,
                    None => 0,
                },
                match parsed_u32(parts[1]) {
                    Some(n) => n,
                    None => 0,
                },
                match lookup(statuses, file) {
                    Some(s) => s,
                    None => None,
                },
            ),
        )
    }
}

/// The changes that the numstat lines report, in order.
pub open spec fn numstat_entries(
    ls: Seq<Seq<char>>,
    patches: Seq<(Seq<char>, Seq<char>)>,
    statuses: Seq<(Seq<char>, Option<SnapshotDiffStatus>)>,
) -> Seq<(Seq<char>, Seq<char>, u32, u32, Option<SnapshotDiffStatus>)>
    decreases ls.len(),
{
    if ls.len() == 0 {
        Seq::empty()
    } else {
        let prev = numstat_entries(ls.drop_last(), patches, statuses);
        match numstat_entry(ls.last(), patches, statuses) {
            Some(e) => prev.push(e),
            None => prev,
        }
    }
}

/// The changes between two snapshots, read from the outputs of
/// `git diff --numstat`, `git diff` and `git diff --name-status`.
pub open spec fn diff_full_spec(numstat: Seq<char>, diff: Seq<char>, name_status: Seq<char>) -> Seq<
    (Seq<char>, Seq<char>, u32, u32, Option<SnapshotDiffStatus>),
> {
    numstat_entries(lines(numstat), file_patches(diff), name_statuses(lines(name_status)))
}

/// The value of a [`SnapshotFileDiff`].
pub open spec fn file_diff_view(d: SnapshotFileDiff) -> (Seq<char>, Seq<char>, u32, u32, Option<SnapshotDiffStatus>) {
    (d.file@, d.patch@, d.additions, d.deletions, d.status)
}

/// The parts of a line around its first two tabs.
fn split3_exec(s: &[char]) -> (r: Vec<Vec<char>>)
    ensures
        views(r@) == split3(s@),
{
    let mut r: Vec<Vec<char>> = Vec::new();
    match find_char_exec(s, '\t', 0) {
        None => {
            r.push(slice_vec(s, 0, s.len()));
            assert(s@.subrange(0, s@.len() as int) =~= s@);
        },
        Some(i) => {
            proof {
                lemma_find_char_from_range(s@, '\t', 0);
            }
            r.push(slice_vec(s, 0, i));
            assert(s@.subrange(0, i as int) =~= s@.take(i as int));
            let rest = slice_vec(s, i + 1, s.len());
            assert(rest@ =~= s@.skip(i + 1));
            match find_char_exec(rest.as_slice(), '\t', 0) {
                None => {
                    r.push(rest);
                },
                Some(j) => {
                    proof {
                        lemma_find_char_from_range(rest@, '\t', 0);
                    }
                    r.push(slice_vec(rest.as_slice(), 0, j));
                    assert(rest@.subrange(0, j as int) =~= rest@.take(j as int));
                    r.push(slice_vec(rest.as_slice(), j + 1, rest.len()));
                    assert(rest@.subrange(j + 1, rest@.len() as int) =~= rest@.skip(j + 1));
                },
            }
        },
    }
    assert(views(r@) =~= split3(s@));
    r
}

fn status_exec(code: &[char]) -> (r: Option<SnapshotDiffStatus>)
    ensures
        r == status_of_code(code@),
{
    if code.len() == 0 {
        None
    } else if code[0] == 'A' {
        Some(SnapshotDiffStatus::Added)
    } else if code[0] == 'D' {
        Some(SnapshotDiffStatus::Deleted)
    } else if code[0] == 'M' {
        Some(SnapshotDiffStatus::Modified)
    } else {
        None
    }
}

/// The pairs of a table with their keys as plain text.
pub open spec fn table_view<V>(t: Seq<(Vec<char>, V)>) -> Seq<(Seq<char>, V)> {
    t.map_values(|e: (Vec<char>, V)| (e.0@, e.1))
}

fn lookup_exec<V: Copy>(t: &Vec<(Vec<char>, V)>, key: &[char]) -> (r: Option<V>)
    ensures
        r == lookup(table_view(t@), key@),
{
    let ghost tv = table_view(t@);
    let mut k = t.len();
    assert(tv.take(k as int) =~= tv);
    while k > 0
        invariant
            k <= t.len(),
            tv == table_view(t@),
            lookup(tv, key@) == lookup(tv.take(k as int), key@),
        decreases k,
    {
        assert(tv.take(k as int).last() == (t@[k - 1].0@, t@[k - 1].1));
        assert(tv.take(k as int).drop_last() =~= tv.take(k - 1));
        if crate::text::chars_eq(t[k - 1].0.as_slice(), key) {
            return Some(t[k - 1].1);
        }
        k -= 1;
    }
    None
}

fn lookup_text(t: &Vec<(Vec<char>, Vec<char>)>, key: &[char]) -> (r: Option<Vec<char>>)
    ensures
        match r {
            Some(v) => lookup(table_view2(t@), key@) == Some(v@),
            None => lookup(table_view2(t@), key@) is None,
        },
{
    let ghost tv = table_view2(t@);
    let mut k = t.len();
    assert(tv.take(k as int) =~= tv);
    while k > 0
        invariant
            k <= t.len(),
            tv == table_view2(t@),
            lookup(tv, key@) == lookup(tv.take(k as int), key@),
        decreases k,
    {
        assert(tv.take(k as int).last() == (t@[k - 1].0@, t@[k - 1].1@));
        assert(tv.take(k as int).drop_last() =~= tv.take(k - 1));
        if crate::text::chars_eq(t[k - 1].0.as_slice(), key) {
            return Some(slice_vec(t[k - 1].1.as_slice(), 0, t[k - 1].1.len()));
        }
        k -= 1;
    }
    None
}

/// The pairs of a table of texts as plain text.
pub open spec fn table_view2(t: Seq<(Vec<char>, Vec<char>)>) -> Seq<(Seq<char>, Seq<char>)> {
    t.map_values(|e: (Vec<char>, Vec<char>)| (e.0@, e.1@))
}

fn name_statuses_exec(ls: &Vec<Vec<char>>) -> (r: Vec<(Vec<char>, Option<SnapshotDiffStatus>)>)
    ensures
        table_view(r@) == name_statuses(views(ls@)),
{
    let ghost lv = views(ls@);
    let mut r: Vec<(Vec<char>, Option<SnapshotDiffStatus>)> = Vec::new();
    let mut i: usize = 0;
    while i < ls.len()
        invariant
            i <= ls.len(),
            lv == views(ls@),
            table_view(r@) == name_statuses(lv.take(i as int)),
        decreases ls.len() - i,
    {
        let l = ls[i].as_slice();
        assert(lv.take(i + 1).drop_last() =~= lv.take(i as int));
        assert(lv.take(i + 1).last() == l@);
        let parts = split3_exec(l);
        if l.len() > 0 && parts.len() >= 2 {
            let last = slice_vec(parts[parts.len() - 1].as_slice(), 0, parts[parts.len() - 1].len());
            assert(last@ =~= views(parts@).last());
            let st = status_exec(parts[0].as_slice());
            assert(views(parts@)[0] == parts@[0]@);
            let ghost before = r@;
            r.push((last, st));
            assert(table_view(r@) =~= table_view(before).push((last@, st)));
        }
        i += 1;
    }
    assert(lv.take(ls.len() as int) =~= lv);
    r
}

fn file_patches_exec(diff: &str) -> (r: Vec<(Vec<char>, Vec<char>)>)
    ensures
        table_view2(r@) == file_patches(diff@),
{
    let cs = chars_of(diff);
    let ls = lines_exec(cs.as_slice());
    let ghost lv = views(ls@);
    let mut done: Vec<(Vec<char>, Vec<char>)> = Vec::new();
    let mut file: Option<Vec<char>> = None;
    let mut patch: Vec<char> = Vec::new();
    let head = chars_of("diff --git");
    let plus = chars_of("+++");
    let plus_b = chars_of("+++ b/");
    let plus_sp = chars_of("+++ ");
    let b = chars_of("b/");
    let mut i: usize = 0;
    assert(lv.take(0) =~= Seq::<Seq<char>>::empty());
    assert(table_view2(done@) =~= Seq::<(Seq<char>, Seq<char>)>::empty());
    assert(patch@ =~= Seq::<char>::empty());
    while i < ls.len()
        invariant
            i <= ls.len(),
            lv == views(ls@),
            lv == lines(diff@),
            head@ == "diff --git"@,
            plus@ == "+++"@,
            plus_b@ == "+++ b/"@,
            plus_sp@ == "+++ "@,
            b@ == "b/"@,
            patch_run(lv.take(i as int)) == (PatchState {
                done: table_view2(done@),
                file: match file { Some(f) => Some(f@), None => None },
                patch: patch@,
            }),
        decreases ls.len() - i,
    {
        let l = ls[i].as_slice();
        assert(lv.take(i + 1).drop_last() =~= lv.take(i as int));
        assert(lv.take(i + 1).last() == l@);
        proof {
            reveal_strlit("+++ b/");
            reveal_strlit("+++ ");
            reveal_strlit("b/");
            reveal_strlit("\n");
        }
        if starts_with_exec(l, head.as_slice()) {
            let old_file = file;
            file = None;
            match old_file {
                Some(f) => {
                    let ghost before = done@;
                    let p = patch;
                    done.push((f, p));
                    assert(table_view2(done@) =~= table_view2(before).push((f@, p@)));
                },
                None => {},
            }
            patch = slice_vec(l, 0, l.len());
            assert(l@.subrange(0, l@.len() as int) =~= l@);
            patch.push('\n');
        } else {
            if starts_with_exec(l, plus.as_slice()) {
                let p: Vec<char> = if starts_with_exec(l, plus_b.as_slice()) {
                    slice_vec(l, 6, l.len())
                } else if starts_with_exec(l, plus_sp.as_slice()) {
                    slice_vec(l, 4, l.len())
                } else {
                    Vec::new()
                };
                assert(p@ =~= plus_path(l@));
                let pb = starts_with_exec(p.as_slice(), b.as_slice());
                let none = match &file {
                    None => true,
                    Some(_) => false,
                };
                if none || pb {
                    let name = if pb { slice_vec(p.as_slice(), 2, p.len()) } else { p };
                    assert(name@ =~= if starts_with(plus_path(l@), "b/"@) { plus_path(l@).skip(2) } else { plus_path(l@) });
                    file = Some(name);
                }
            }
            append_chars(&mut patch, l);
            patch.push('\n');
        }
        assert(patch@ =~= patch_step(patch_run(lv.take(i as int)), l@).patch);
        i += 1;
    }
    assert(lv.take(ls.len() as int) =~= lv);
    match file {
        Some(f) => {
            let ghost before = done@;
            let p = patch;
            done.push((f, p));
            assert(table_view2(done@) =~= table_view2(before).push((f@, p@)));
        },
        None => {},
    }
    done
}

/// The changes between two snapshots, from the outputs of `git diff
/// --numstat`, `git diff` and `git diff --name-status` over the same range:
/// one entry per numstat line with its three fields, with the counts it gives
/// (zero where it gives none, as for binary files), the file's patch cut from
/// the diff, and the file's status.
pub fn parse_diff_full(numstat: &str, diff: &str, name_status: &str) -> (r: Vec<SnapshotFileDiff>)
    ensures
        r@.map_values(|d: SnapshotFileDiff| file_diff_view(d)) == diff_full_spec(numstat@, diff@, name_status@),
{
    let ns_cs = chars_of(name_status);
    let ns_lines = lines_exec(ns_cs.as_slice());
    let statuses = name_statuses_exec(&ns_lines);
    let patches = file_patches_exec(diff);
    let ghost pv = file_patches(diff@);
    let ghost sv = name_statuses(lines(name_status@));
    let cs = chars_of(numstat);
    let ls = lines_exec(cs.as_slice());
    let ghost lv = views(ls@);
    let mut result: Vec<SnapshotFileDiff> = Vec::new();
    let mut i: usize = 0;
    while i < ls.len()
        invariant
            i <= ls.len(),
            lv == views(ls@),
            lv == lines(numstat@),
            table_view2(patches@) == pv,
            table_view(statuses@) == sv,
            result@.map_values(|d: SnapshotFileDiff| file_diff_view(d)) == numstat_entries(lv.take(i as int), pv, sv),
        decreases ls.len() - i,
    {
        let l = ls[i].as_slice();
        assert(lv.take(i + 1).drop_last() =~= lv.take(i as int));
        assert(lv.take(i + 1).last() == l@);
        let parts = split3_exec(l);
        if l.len() > 0 && parts.len() >= 3 {
            let additions = match parse_u32(parts[0].as_slice()) {
                Some(n) => n,
                None => 0,
            };
            let deletions = match parse_u32(parts[1].as_slice()) {
                Some(n) => n,
                None => 0,
            };
            let file = parts[2].as_slice();
            let patch = match lookup_text(&patches, file) {
                Some(p) => p,
                None => Vec::new(),
            };
            let status = match lookup_exec(&statuses, file) {
                Some(s) => s,
                None => None,
            };
            let d = SnapshotFileDiff {
                file: string_of(file),
                patch: string_of(patch.as_slice()),
                additions,
                deletions,
                status,
            };
            let ghost before = result@;
            result.push(d);
            assert(result@.map_values(|d: SnapshotFileDiff| file_diff_view(d)) =~= before.map_values(
                |d: SnapshotFileDiff| file_diff_view(d),
            ).push(file_diff_view(d)));
        }
        i += 1;
    }
    assert(lv.take(ls.len() as int) =~= lv);
    result
}

/// The lines of a git output that are not empty.
pub open spec fn nonempty_lines(ls: Seq<Seq<char>>) -> Seq<Seq<char>>
    decreases ls.len(),
{
    if ls.len() == 0 {
        Seq::empty()
    } else if ls.last().len() > 0 {
        nonempty_lines(ls.drop_last()).push(ls.last())
    } else {
        nonempty_lines(ls.drop_last())
    }
}

/// The lines of `out` that are not empty, in order (the files that
/// `git diff --name-only` lists, or the hashes `git log` gives).
pub fn parse_name_list(out: &str) -> (r: Vec<String>)
    ensures
        string_views(r@) == nonempty_lines(lines(out@)),
{
    let cs = chars_of(out);
    let ls = lines_exec(cs.as_slice());
    let ghost lv = views(ls@);
    let mut r: Vec<String> = Vec::new();
    let mut i: usize = 0;
    while i < ls.len()
        invariant
            i <= ls.len(),
            lv == views(ls@),
            lv == lines(out@),
            string_views(r@) == nonempty_lines(lv.take(i as int)),
        decreases ls.len() - i,
    {
        assert(lv.take(i + 1).drop_last() =~= lv.take(i as int));
        assert(lv.take(i + 1).last() == ls@[i as int]@);
        if ls[i].len() > 0 {
            let ghost before = r@;
            let s = string_of(ls[i].as_slice());
            r.push(s);
            proof {
                crate::text::lemma_string_views_push(before, s);
            }
        }
        i += 1;
    }
    assert(lv.take(ls.len() as int) =~= lv);
    r
}

/// The hash and message of each line of `git log --oneline` that has a space.
pub open spec fn log_entries(ls: Seq<Seq<char>>) -> Seq<(Seq<char>, Seq<char>)>
    decreases ls.len(),
{
    if ls.len() == 0 {
        Seq::empty()
    } else {
        let prev = log_entries(ls.drop_last());
        let l = ls.last();
        match find_char_from(l, ' ', 0) {
            Some(k) => if l.len() > 0 {
                prev.push((l.take(k), l.skip(k + 1)))
            } else {
                prev
            },
            None => prev,
        }
    }
}

/// The snapshots that `git log --oneline` lists: hash and message.
pub fn parse_log_oneline(out: &str) -> (r: Vec<(String, String)>)
    ensures
        r@.map_values(|e: (String, String)| (e.0@, e.1@)) == log_entries(lines(out@)),
{
    let cs = chars_of(out);
    let ls = lines_exec(cs.as_slice());
    let ghost lv = views(ls@);
    let mut r: Vec<(String, String)> = Vec::new();
    let mut i: usize = 0;
    while i < ls.len()
        invariant
            i <= ls.len(),
            lv == views(ls@),
            lv == lines(out@),
            r@.map_values(|e: (String, String)| (e.0@, e.1@)) == log_entries(lv.take(i as int)),
        decreases ls.len() - i,
    {
        let l = ls[i].as_slice();
        assert(lv.take(i + 1).drop_last() =~= lv.take(i as int));
        assert(lv.take(i + 1).last() == l@);
        if l.len() > 0 {
            match find_char_exec(l, ' ', 0) {
                Some(k) => {
                    proof {
                        lemma_find_char_from_range(l@, ' ', 0);
                    }
                    let h = string_of(slice_vec(l, 0, k).as_slice());
                    let m = string_of(slice_vec(l, k + 1, l.len()).as_slice());
                    assert(h@ =~= l@.take(k as int));
                    assert(m@ =~= l@.skip(k + 1));
                    let ghost before = r@;
                    r.push((h, m));
                    assert(r@.map_values(|e: (String, String)| (e.0@, e.1@)) =~= before.map_values(
                        |e: (String, String)| (e.0@, e.1@),
                    ).push((h@, m@)));
                },
                None => {},
            }
        }
        i += 1;
    }
    assert(lv.take(ls.len() as int) =~= lv);
    r
}

/// Which snapshot to drop when `keep` are kept: the oldest of the hashes that
/// `git log` gave, when it gave more than `keep`.
pub fn oldest_to_drop(hashes: &Vec<String>, keep: usize) -> (r: Option<&String>)
    ensures
        hashes.len() > keep ==> r == Some(&hashes@.last()),
        hashes.len() <= keep ==> r is None,
{
    if hashes.len() > keep {
        Some(&hashes[hashes.len() - 1])
    } else {
        None
    }
}

} // verus!
