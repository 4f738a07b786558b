//! Instructions for the agent found in files: the user's own (under the home
//! directory) and the project's (in the working directory or an ancestor of
//! it). Reading the files is left to the application; which of them count,
//! and in which order, is decided here.
use vstd::prelude::*;
use crate::text::{join, trim, trim_str, string_views};
use crate::tools::join_strings;

verus! {

/// How many directories, from the working directory up, are searched.
pub const MAX_DEPTH: usize = 5;

/// Project instructions.
pub struct ProjectInstructions;

/// A file's content counts when it is not blank.
pub open spec fn counts(c: Option<Seq<char>>) -> Option<Seq<char>> {
    match c {
        Some(t) => if trim(t).len() > 0 { Some(t) } else { None },
        None => None,
    }
}

/// What one directory offers, as read: its `AGENTS.md`, its second-choice
/// instructions file, and its project rules file (`None` where a file could not be read).
pub type LevelFiles = (Option<Seq<char>>, Option<Seq<char>>, Option<Seq<char>>);

/// The project file of a directory: `AGENTS.md`, or else its second-choice
/// instructions file.
pub open spec fn project_file(l: LevelFiles) -> Option<Seq<char>> {
    match counts(l.0) {
        Some(t) => Some(t),
        None => counts(l.1),
    }
}

/// The directories searched.
pub open spec fn searched(levels: Seq<LevelFiles>) -> nat {
    if levels.len() < MAX_DEPTH { levels.len() } else { MAX_DEPTH as nat }
}

/// The nearest directory, from index `d` on, with a project file.
pub open spec fn project_root_from(levels: Seq<LevelFiles>, d: int) -> Option<int>
    decreases searched(levels) - d,
{
    if d < 0 || d >= searched(levels) {
        None
    } else if project_file(levels[d]) is Some {
        Some(d)
    } else {
        project_root_from(levels, d + 1)
    }
}

proof fn lemma_root(levels: Seq<LevelFiles>, d: int)
    ensures
        match project_root_from(levels, d) {
            Some(x) => d <= x < searched(levels) && project_file(levels[x]) is Some,
            None => true,
        },
    decreases searched(levels) - d,
{
    if 0 <= d < searched(levels) && project_file(levels[d]) is None {
        lemma_root(levels, d + 1);
    }
}

/// The rules of the directories up to index `upto`, nearest first.
pub open spec fn agent_rules_upto(levels: Seq<LevelFiles>, upto: int) -> Seq<Seq<char>>
    decreases upto + 1,
{
    if upto < 0 {
        Seq::empty()
    } else {
        match counts(levels[upto].2) {
            Some(t) => agent_rules_upto(levels, upto - 1).push(t),
            None => agent_rules_upto(levels, upto - 1),
        }
    }
}

/// The rules files of the user that count, in order.
pub open spec fn nonblank_texts(v: Seq<Seq<char>>) -> Seq<Seq<char>>
    decreases v.len(),
{
    if v.len() == 0 {
        Seq::empty()
    } else {
        match counts(Some(v.last())) {
            Some(t) => nonblank_texts(v.drop_last()).push(t),
            None => nonblank_texts(v.drop_last()),
        }
    }
}

/// The sections of the instructions, in order: the user's instructions, the
/// user's rules, the project file of the nearest directory that has one, and
/// the rules of each directory from the working directory up to that one
/// (up to the last searched when there is none).
pub open spec fn instruction_sections(global: Option<Seq<char>>, global_rules: Seq<Seq<char>>, levels: Seq<LevelFiles>) -> Seq<Seq<char>> {
    let g = match counts(global) {
        Some(t) => seq![t],
        None => Seq::empty(),
    };
    let root = project_root_from(levels, 0);
    let p = match root {
        Some(d) => seq![project_file(levels[d])->0],
        None => Seq::empty(),
    };
    let upto = match root {
        Some(d) => d,
        None => searched(levels) - 1,
    };
    g + nonblank_texts(global_rules) + p + agent_rules_upto(levels, upto)
}

/// The instructions: the sections separated by blank lines; none when there
/// are none.
pub open spec fn instructions(global: Option<Seq<char>>, global_rules: Seq<Seq<char>>, levels: Seq<LevelFiles>) -> Option<Seq<char>> {
    let s = instruction_sections(global, global_rules, levels);
    if s.len() == 0 { None } else { Some(join(s, "\n\n"@)) }
}

/// The values of optional texts.
pub open spec fn opt_view(o: Option<String>) -> Option<Seq<char>> {
    match o {
        Some(s) => Some(s@),
        None => None,
    }
}

/// The values of what the directories offer.
pub open spec fn levels_view(v: Seq<(Option<String>, Option<String>, Option<String>)>) -> Seq<LevelFiles> {
    v.map_values(|l: (Option<String>, Option<String>, Option<String>)| (opt_view(l.0), opt_view(l.1), opt_view(l.2)))
}

fn counts_exec(c: &Option<String>) -> (r: bool)
    ensures
        r == (counts(opt_view(*c)) is Some),
{
    match c {
        Some(t) => !trim_str(t.as_str()).as_str().is_empty(),
        None => false,
    }
}

fn copy_text(s: &String) -> (r: String)
    ensures
        r@ == s@,
{
    crate::text::owned(s.as_str())
}

fn push_section(out: &mut Vec<String>, s: String)
    ensures
        string_views(final(out)@) == string_views(old(out)@).push(s@),
{
    let ghost before = out@;
    out.push(s);
    proof {
        crate::text::lemma_string_views_push(before, s);
    }
}

impl ProjectInstructions {
    /// The instructions from what was read: the user's instructions file, the
    /// user's rules files (in the order of their names), and what each
    /// directory from the working directory up offers.
    pub fn assemble(
        global: Option<String>,
        global_rules: &Vec<String>,
        levels: &Vec<(Option<String>, Option<String>, Option<String>)>,
    ) -> (r: Option<String>)
        ensures
            match r {
                Some(t) => instructions(opt_view(global), string_views(global_rules@), levels_view(levels@)) == Some(t@),
                None => instructions(opt_view(global), string_views(global_rules@), levels_view(levels@)) is None,
            },
    {
        let ghost lv = levels_view(levels@);
        let ghost gr = string_views(global_rules@);
        let mut sections: Vec<String> = Vec::new();
        if counts_exec(&global) {
            match global {
                Some(t) => push_section(&mut sections, t),
                None => {},
            }
        }
        let ghost s1 = string_views(sections@);
        assert(s1 =~= match counts(opt_view(global)) {
            Some(t) => seq![t],
            None => Seq::<Seq<char>>::empty(),
        });
        let mut i: usize = 0;
        while i < global_rules.len()
            invariant
                i <= global_rules.len(),
                gr == string_views(global_rules@),
                string_views(sections@) == s1 + nonblank_texts(gr.take(i as int)),
            decreases global_rules.len() - i,
        {
            assert(gr.take(i + 1).drop_last() =~= gr.take(i as int));
            assert(gr.take(i + 1).last() == global_rules@[i as int]@);
            let c = Some(copy_text(&global_rules[i]));
            if counts_exec(&c) {
                push_section(&mut sections, copy_text(&global_rules[i]));
                assert(string_views(sections@) =~= s1 + nonblank_texts(gr.take(i + 1)));
            } else {
                assert(string_views(sections@) =~= s1 + nonblank_texts(gr.take(i + 1)));
            }
            i += 1;
        }
        assert(gr.take(global_rules.len() as int) =~= gr);
        let n = if levels.len() < MAX_DEPTH { levels.len() } else { MAX_DEPTH };
        let mut root: Option<usize> = None;
        let mut d: usize = 0;
        while d < n
            invariant_except_break
                d <= n,
                n == searched(lv),
                n <= levels.len(),
                lv == levels_view(levels@),
                root is None,
                project_root_from(lv, 0) == project_root_from(lv, d as int),
            ensures
                lv == levels_view(levels@),
                n == searched(lv),
                n <= levels.len(),
                root == match project_root_from(lv, 0) { Some(x) => Some(x as usize), None => None },
                match root { Some(x) => x < n, None => true },
            decreases n - d,
        {
            let level = &levels[d];
            assert(lv[d as int] == (opt_view(level.0), opt_view(level.1), opt_view(level.2)));
            if counts_exec(&level.0) || counts_exec(&level.1) {
                root = Some(d);
                break;
            }
            d += 1;
        }
        let ghost s2 = string_views(sections@);
        proof {
            lemma_root(lv, 0);
        }
        let upto_plus_one: usize = match root {
            Some(x) => {
                let level = &levels[x];
                assert(lv[x as int] == (opt_view(level.0), opt_view(level.1), opt_view(level.2)));
                let t = if counts_exec(&level.0) {
                    match &level.0 {
                        Some(t) => copy_text(t),
                        None => String::new(),
                    }
                } else {
                    match &level.1 {
                        Some(t) => copy_text(t),
                        None => String::new(),
                    }
                };
                assert(t@ == project_file(lv[x as int])->0);
                push_section(&mut sections, t);
                assert(string_views(sections@) =~= s2 + seq![project_file(lv[x as int])->0]);
                x + 1
            },
            None => {
                assert(s2 + Seq::<Seq<char>>::empty() =~= s2);
                n
            },
        };
        let ghost s3 = string_views(sections@);
        let mut k: usize = 0;
        while k < upto_plus_one
            invariant
                k <= upto_plus_one <= levels.len(),
                lv == levels_view(levels@),
                string_views(sections@) == s3 + agent_rules_upto(lv, k - 1),
            decreases upto_plus_one - k,
        {
            let level = &levels[k];
            assert(lv[k as int] == (opt_view(level.0), opt_view(level.1), opt_view(level.2)));
            if counts_exec(&level.2) {
                match &level.2 {
                    Some(t) => push_section(&mut sections, copy_text(t)),
                    None => {},
                }
            }
            k += 1;
        }
        proof {
            let root_spec = project_root_from(lv, 0);
            let p = match root_spec {
                Some(d) => seq![project_file(lv[d])->0],
                None => Seq::<Seq<char>>::empty(),
            };
            assert(s3 == s2 + p);
            assert(s2 == s1 + nonblank_texts(gr));
            let upto = match root_spec {
                Some(d) => d,
                None => searched(lv) - 1,
            };
            assert(upto == upto_plus_one - 1);
            assert(string_views(sections@) =~= s1 + nonblank_texts(gr) + p + agent_rules_upto(lv, upto));
        }
        assert(string_views(sections@) =~= instruction_sections(opt_view(global), gr, lv));
        if sections.len() == 0 {
            None
        } else {
            Some(join_strings(&sections, "\n\n"))
        }
    }
}

} // verus!
