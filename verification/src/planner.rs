//! Plans of work: their parts, the JSON that the model answers with, and the
//! checks a plan must pass before it is carried out.
use vstd::prelude::*;
use crate::text::{
    append_chars, append_str, chars_of, decimal, decimal_exec, find_char_exec, find_char_from,
    join, lemma_find_char_from_range, lemma_string_views_push, owned, push_str, rfind_char_below, rfind_char_exec, string_of, string_views,
    substring,
};
use crate::tui::line_buffer::lemma_rfind_char;
use crate::json::{
    json_array_elements, json_array_texts, json_element_texts, json_field_elements, json_items,
    json_parses, json_str_field, json_string_field, json_string_items, json_u64, json_u64_field, json_u64_items,
    json_u64_items_of, json_valid, opt_view, opt_views,
};

verus! {

/// Ideas around a request: questions to ask, suggestions, alternatives.
pub struct BrainstormResult {
    pub questions: Vec<String>,
    pub suggestions: Vec<String>,
    pub alternatives: Vec<String>,
}

/// A plan of implementation.
pub struct ImplementationPlan {
    pub title: String,
    pub overview: String,
    pub steps: Vec<PlanStep>,
    pub risks: Vec<String>,
    pub test_strategy: String,
}

/// One step of a plan, with the steps it depends on by id.
pub struct PlanStep {
    pub id: usize,
    pub title: String,
    pub description: String,
    pub files_to_modify: Vec<String>,
    pub estimated_minutes: usize,
    pub dependencies: Vec<usize>,
}

/// A task for a coding agent, made from a step.
pub struct SubTask {
    pub title: String,
    pub prompt: String,
    pub context: String,
    pub verification: String,
}

// ───────────────────────────── JSON in an answer ─────────────────────────────

/// The span of `text` from the first `open` to the last `close`, both
/// included, when both occur; `fallback` otherwise.
pub open spec fn span_between(text: Seq<char>, open: char, close: char, fallback: Seq<char>) -> Seq<char> {
    match (find_char_from(text, open, 0), rfind_char_below(text, close, text.len() as int)) {
        (Some(s), Some(e)) => text.subrange(s, e + 1),
        _ => fallback,
    }
}

/// The span can be cut: when both characters occur, the last `close` is not
/// more than one character before the first `open`.
pub open spec fn span_cuttable(text: Seq<char>, open: char, close: char) -> bool {
    match (find_char_from(text, open, 0), rfind_char_below(text, close, text.len() as int)) {
        (Some(s), Some(e)) => s <= e + 1,
        _ => true,
    }
}

fn span_exec(text: &str, open: char, close: char, fallback: &str) -> (r: String)
    requires
        span_cuttable(text@, open, close),
    ensures
        r@ == span_between(text@, open, close, fallback@),
{
    let cs = chars_of(text);
    if let Some(s) = find_char_exec(cs.as_slice(), open, 0) {
        if let Some(e) = rfind_char_exec(cs.as_slice(), close) {
            proof {
                lemma_find_char_from_range(cs@, open, 0);
                lemma_rfind_char(cs@, close, cs@.len() as int);
            }
            return substring(cs.as_slice(), s, e + 1);
        }
    }
    owned(fallback)
}

/// The JSON object in an answer: from its first `{` to its last `}`; the
/// whole answer when there is none.
pub fn extract_json(text: &str) -> (r: String)
    requires
        span_cuttable(text@, '{', '}'),
    ensures
        r@ == span_between(text@, '{', '}', text@),
{
    span_exec(text, '{', '}', text)
}

/// The JSON array in an answer: from its first `[` to its last `]`; an empty
/// array when there is none.
pub fn extract_json_array(text: &str) -> (r: String)
    requires
        span_cuttable(text@, '[', ']'),
    ensures
        r@ == span_between(text@, '[', ']', "[]"@),
{
    span_exec(text, '[', ']', "[]")
}

// ───────────────────────────── reading the model's replies ─────────────────────────────

/// The texts that are there, in order.
pub open spec fn present(v: Seq<Option<Seq<char>>>) -> Seq<Seq<char>>
    decreases v.len(),
{
    if v.len() == 0 {
        Seq::empty()
    } else {
        match v.last() {
            Some(t) => present(v.drop_last()).push(t),
            None => present(v.drop_last()),
        }
    }
}

/// The string items of an array field as read: none when there is no array.
pub open spec fn strings_in(o: Option<Seq<Option<Seq<char>>>>) -> Seq<Seq<char>> {
    match o {
        Some(v) => present(v),
        None => Seq::empty(),
    }
}

/// The numbers that are there, in order, as `usize`.
pub open spec fn numbers_present(v: Seq<Option<u64>>) -> Seq<usize>
    decreases v.len(),
{
    if v.len() == 0 {
        Seq::empty()
    } else {
        match v.last() {
            Some(n) => numbers_present(v.drop_last()).push(n as usize),
            None => numbers_present(v.drop_last()),
        }
    }
}

/// The integer items of an array field as read: none when there is no
/// array.
pub open spec fn numbers_in(o: Option<Seq<Option<u64>>>) -> Seq<usize> {
    match o {
        Some(v) => numbers_present(v),
        None => Seq::empty(),
    }
}

/// The text read, or `default` when there is none.
pub open spec fn text_or(o: Option<Seq<char>>, default: Seq<char>) -> Seq<char> {
    match o {
        Some(t) => t,
        None => default,
    }
}

/// Id, title, description, files, minutes and dependencies of a step.
pub type StepFields = (usize, Seq<char>, Seq<char>, Seq<Seq<char>>, usize, Seq<usize>);

/// The fields of a step.
pub open spec fn step_fields(s: PlanStep) -> StepFields {
    (s.id, s.title@, s.description@, string_views(s.files_to_modify@), s.estimated_minutes, s.dependencies@)
}

/// The fields of steps.
pub open spec fn steps_fields(v: Seq<PlanStep>) -> Seq<StepFields> {
    v.map_values(|s: PlanStep| step_fields(s))
}

/// The step that the JSON text `e` of an element describes: it needs an
/// integer `id`, a string `title` and `description` and an integer
/// `estimated_minutes`; its files are the strings of `files_to_modify` and its
/// dependencies the integers of `dependencies`.
pub open spec fn step_from(e: Seq<char>) -> Option<StepFields> {
    match (
        json_u64_field(e, "id"@),
        json_string_field(e, "title"@),
        json_string_field(e, "description"@),
        json_u64_field(e, "estimated_minutes"@),
    ) {
        (Some(id), Some(title), Some(description), Some(minutes)) => Some((
            id as usize,
            title,
            description,
            strings_in(json_string_items(e, "files_to_modify"@)),
            minutes as usize,
            numbers_in(json_u64_items_of(e, "dependencies"@)),
        )),
        _ => None,
    }
}

/// The steps that the elements describe, in order; the others are left out.
pub open spec fn steps_from(es: Seq<Seq<char>>) -> Seq<StepFields>
    decreases es.len(),
{
    if es.len() == 0 {
        Seq::empty()
    } else {
        match step_from(es.last()) {
            Some(st) => steps_from(es.drop_last()).push(st),
            None => steps_from(es.drop_last()),
        }
    }
}

/// Title, prompt, context and verification of a sub-task.
pub type TaskFields = (Seq<char>, Seq<char>, Seq<char>, Seq<char>);

/// The fields of sub-tasks.
pub open spec fn tasks_fields(v: Seq<SubTask>) -> Seq<TaskFields> {
    v.map_values(|t: SubTask| (t.title@, t.prompt@, t.context@, t.verification@))
}

/// The sub-task that the JSON text `e` of an element describes: it needs a
/// string `title` and `prompt`; its context and verification are empty when
/// missing.
pub open spec fn task_from(e: Seq<char>) -> Option<TaskFields> {
    match (json_string_field(e, "title"@), json_string_field(e, "prompt"@)) {
        (Some(title), Some(prompt)) => Some((
            title,
            prompt,
            text_or(json_string_field(e, "context"@), Seq::empty()),
            text_or(json_string_field(e, "verification"@), Seq::empty()),
        )),
        _ => None,
    }
}

/// The sub-tasks that the elements describe, in order; the others are left
/// out.
pub open spec fn tasks_from(es: Seq<Seq<char>>) -> Seq<TaskFields>
    decreases es.len(),
{
    if es.len() == 0 {
        Seq::empty()
    } else {
        match task_from(es.last()) {
            Some(t) => tasks_from(es.drop_last()).push(t),
            None => tasks_from(es.drop_last()),
        }
    }
}

/// The string items of an array field, the others left out.
fn present_strings(o: Option<Vec<Option<String>>>) -> (r: Vec<String>)
    ensures
        string_views(r@) == strings_in(match o {
            Some(v) => Some(opt_views(v@)),
            None => None,
        }),
{
    let mut out: Vec<String> = Vec::new();
    match o {
        None => {
            assert(string_views(out@) =~= Seq::<Seq<char>>::empty());
            out
        },
        Some(v) => {
            let ghost vv = opt_views(v@);
            let mut i: usize = 0;
            assert(vv.take(0) =~= Seq::<Option<Seq<char>>>::empty());
            assert(string_views(out@) =~= Seq::<Seq<char>>::empty());
            while i < v.len()
                invariant
                    i <= v.len(),
                    vv == opt_views(v@),
                    string_views(out@) == present(vv.take(i as int)),
                decreases v.len() - i,
            {
                assert(vv.take(i + 1).drop_last() =~= vv.take(i as int));
                assert(vv.take(i + 1).last() == vv[i as int]);
                match &v[i] {
                    Some(t) => {
                        let ghost before = out@;
                        out.push(t.clone());
                        assert(string_views(out@) =~= string_views(before).push(t@));
                    },
                    None => {},
                }
                i += 1;
            }
            assert(vv.take(v.len() as int) =~= vv);
            out
        },
    }
}

/// The integer items of an array field as `usize`, the others left out.
fn present_numbers(o: Option<Vec<Option<u64>>>) -> (r: Vec<usize>)
    ensures
        r@ == numbers_in(match o {
            Some(v) => Some(v@),
            None => None,
        }),
{
    let mut out: Vec<usize> = Vec::new();
    match o {
        None => {
            assert(out@ =~= Seq::<usize>::empty());
            out
        },
        Some(v) => {
            let mut i: usize = 0;
            assert(v@.take(0) =~= Seq::<Option<u64>>::empty());
            while i < v.len()
                invariant
                    i <= v.len(),
                    out@ == numbers_present(v@.take(i as int)),
                decreases v.len() - i,
            {
                assert(v@.take(i + 1).drop_last() =~= v@.take(i as int));
                assert(v@.take(i + 1).last() == v@[i as int]);
                match v[i] {
                    Some(n) => {
                        out.push(n as usize);
                    },
                    None => {},
                }
                i += 1;
            }
            assert(v@.take(v.len() as int) =~= v@);
            out
        },
    }
}

fn text_or_default(o: Option<String>, default: &str) -> (r: String)
    ensures
        r@ == text_or(opt_view(o), default@),
{
    match o {
        Some(t) => t,
        None => owned(default),
    }
}

/// The step that the JSON text of an element describes.
fn step_from_text(e: &str) -> (r: Option<PlanStep>)
    ensures
        match r {
            Some(st) => step_from(e@) == Some(step_fields(st)),
            None => step_from(e@) is None,
        },
{
    let id = json_u64(e, "id");
    let title = json_str_field(e, "title");
    let description = json_str_field(e, "description");
    let minutes = json_u64(e, "estimated_minutes");
    match (id, title, description, minutes) {
        (Some(id), Some(title), Some(description), Some(minutes)) => {
            let files = present_strings(json_items(e, "files_to_modify"));
            let deps = present_numbers(json_u64_items(e, "dependencies"));
            Some(PlanStep {
                id: id as usize,
                title,
                description,
                files_to_modify: files,
                estimated_minutes: minutes as usize,
                dependencies: deps,
            })
        },
        _ => None,
    }
}

/// The sub-task that the JSON text of an element describes.
fn task_from_text(e: &str) -> (r: Option<SubTask>)
    ensures
        match r {
            Some(t) => task_from(e@) == Some((t.title@, t.prompt@, t.context@, t.verification@)),
            None => task_from(e@) is None,
        },
{
    match (json_str_field(e, "title"), json_str_field(e, "prompt")) {
        (Some(title), Some(prompt)) => {
            let context = text_or_default(json_str_field(e, "context"), "");
            let verification = text_or_default(json_str_field(e, "verification"), "");
            proof {
                reveal_strlit("");
            }
            Some(SubTask { title, prompt, context, verification })
        },
        _ => None,
    }
}

/// The ideas in a reply to a brainstorm: from the JSON object in it (see
/// [`extract_json`]), the string items of `questions`, `suggestions` and
/// `alternatives`; `None` when that object is not JSON.
pub fn brainstorm_from_reply(reply: &str) -> (r: Option<BrainstormResult>)
    requires
        span_cuttable(reply@, '{', '}'),
    ensures
        ({
            let j = span_between(reply@, '{', '}', reply@);
            match r {
                None => !json_parses(j),
                Some(b) => {
                    &&& json_parses(j)
                    &&& string_views(b.questions@) == strings_in(json_string_items(j, "questions"@))
                    &&& string_views(b.suggestions@) == strings_in(json_string_items(j, "suggestions"@))
                    &&& string_views(b.alternatives@) == strings_in(json_string_items(j, "alternatives"@))
                },
            }
        }),
{
    let j = extract_json(reply);
    if !json_valid(j.as_str()) {
        return None;
    }
    Some(BrainstormResult {
        questions: present_strings(json_items(j.as_str(), "questions")),
        suggestions: present_strings(json_items(j.as_str(), "suggestions")),
        alternatives: present_strings(json_items(j.as_str(), "alternatives")),
    })
}

/// The plan in a reply: from the JSON object in it (see [`extract_json`]),
/// its `title` (`Untitled Plan` when missing), `overview` and
/// `test_strategy` (empty when missing), the string items of `risks`, and the
/// elements of `steps` that describe a complete step, in order; `None` when
/// that object is not JSON.
pub fn plan_from_reply(reply: &str) -> (r: Option<ImplementationPlan>)
    requires
        span_cuttable(reply@, '{', '}'),
    ensures
        ({
            let j = span_between(reply@, '{', '}', reply@);
            match r {
                None => !json_parses(j),
                Some(p) => {
                    &&& json_parses(j)
                    &&& p.title@ == text_or(json_string_field(j, "title"@), "Untitled Plan"@)
                    &&& p.overview@ == text_or(json_string_field(j, "overview"@), Seq::empty())
                    &&& steps_fields(p.steps@) == steps_from(match json_element_texts(j, "steps"@) {
                        Some(es) => es,
                        None => Seq::empty(),
                    })
                    &&& string_views(p.risks@) == strings_in(json_string_items(j, "risks"@))
                    &&& p.test_strategy@ == text_or(json_string_field(j, "test_strategy"@), Seq::empty())
                },
            }
        }),
{
    let j = extract_json(reply);
    if !json_valid(j.as_str()) {
        return None;
    }
    let js = j.as_str();
    let elements: Vec<String> = match json_field_elements(js, "steps") {
        Some(es) => es,
        None => Vec::new(),
    };
    let ghost ev = string_views(elements@);
    let mut steps: Vec<PlanStep> = Vec::new();
    let mut i: usize = 0;
    assert(ev.take(0) =~= Seq::<Seq<char>>::empty());
    assert(steps_fields(steps@) =~= Seq::<StepFields>::empty());
    while i < elements.len()
        invariant
            i <= elements.len(),
            ev == string_views(elements@),
            steps_fields(steps@) == steps_from(ev.take(i as int)),
        decreases elements.len() - i,
    {
        assert(ev.take(i + 1).drop_last() =~= ev.take(i as int));
        assert(ev.take(i + 1).last() == elements@[i as int]@);
        match step_from_text(elements[i].as_str()) {
            Some(st) => {
                let ghost before = steps@;
                steps.push(st);
                assert(steps_fields(steps@) =~= steps_fields(before).push(step_fields(st)));
            },
            None => {},
        }
        i += 1;
    }
    assert(ev.take(elements.len() as int) =~= ev);
    proof {
        reveal_strlit("");
    }
    Some(ImplementationPlan {
        title: text_or_default(json_str_field(js, "title"), "Untitled Plan"),
        overview: text_or_default(json_str_field(js, "overview"), ""),
        steps,
        risks: present_strings(json_items(js, "risks")),
        test_strategy: text_or_default(json_str_field(js, "test_strategy"), ""),
    })
}

/// The sub-tasks in a reply: from the JSON array in it (see
/// [`extract_json_array`]), the elements that describe a complete sub-task,
/// in order; `None` when that array is not a JSON array.
pub fn subtasks_from_reply(reply: &str) -> (r: Option<Vec<SubTask>>)
    requires
        span_cuttable(reply@, '[', ']'),
    ensures
        ({
            let j = span_between(reply@, '[', ']', "[]"@);
            match r {
                None => json_array_texts(j) is None,
                Some(v) => json_array_texts(j) matches Some(es) && tasks_fields(v@) == tasks_from(es),
            }
        }),
{
    let j = extract_json_array(reply);
    let elements = match json_array_elements(j.as_str()) {
        Some(es) => es,
        None => return None,
    };
    let ghost ev = string_views(elements@);
    let mut tasks: Vec<SubTask> = Vec::new();
    let mut i: usize = 0;
    assert(ev.take(0) =~= Seq::<Seq<char>>::empty());
    assert(tasks_fields(tasks@) =~= Seq::<TaskFields>::empty());
    while i < elements.len()
        invariant
            i <= elements.len(),
            ev == string_views(elements@),
            tasks_fields(tasks@) == tasks_from(ev.take(i as int)),
        decreases elements.len() - i,
    {
        assert(ev.take(i + 1).drop_last() =~= ev.take(i as int));
        assert(ev.take(i + 1).last() == elements@[i as int]@);
        match task_from_text(elements[i].as_str()) {
            Some(t) => {
                let ghost before = tasks@;
                tasks.push(t);
                assert(tasks_fields(tasks@) =~= tasks_fields(before).push((t.title@, t.prompt@, t.context@, t.verification@)));
            },
            None => {},
        }
        i += 1;
    }
    assert(ev.take(elements.len() as int) =~= ev);
    Some(tasks)
}

// ───────────────────────────── checking a plan ─────────────────────────────

/// The messages for the dependencies of step `id` that name no step.
pub open spec fn dep_issues(id: usize, deps: Seq<usize>, ids: Seq<usize>) -> Seq<Seq<char>>
    decreases deps.len(),
{
    if deps.len() == 0 {
        Seq::empty()
    } else {
        dep_issues(id, deps.drop_last(), ids) + if ids.contains(deps.last()) {
            Seq::<Seq<char>>::empty()
        } else {
            seq![
                "Step "@ + decimal(id as nat) + " depends on non-existent step "@ + decimal(
                    deps.last() as nat,
                ),
            ]
        }
    }
}

/// The ids of the steps, in order.
pub open spec fn step_ids(steps: Seq<PlanStep>) -> Seq<usize> {
    steps.map_values(|s: PlanStep| s.id)
}

/// The messages for each step in turn: its unknown dependencies, then an empty
/// description.
pub open spec fn step_issues(steps: Seq<PlanStep>, ids: Seq<usize>) -> Seq<Seq<char>>
    decreases steps.len(),
{
    if steps.len() == 0 {
        Seq::empty()
    } else {
        let s = steps.last();
        step_issues(steps.drop_last(), ids) + dep_issues(s.id, s.dependencies@, ids) + if s.description@.len() == 0 {
            seq!["Step "@ + decimal(s.id as nat) + " has empty description"@]
        } else {
            Seq::<Seq<char>>::empty()
        }
    }
}

/// Steps `a` and `b` depend on each other.
pub open spec fn mutual(a: PlanStep, b: PlanStep) -> bool {
    a.dependencies@.contains(b.id) && b.dependencies@.contains(a.id)
}

/// The message for steps `a` and `b` depending on each other.
pub open spec fn circular_message(a: PlanStep, b: PlanStep) -> Seq<char> {
    "Circular dependency between steps "@ + decimal(a.id as nat) + " and "@ + decimal(b.id as nat)
}

/// The messages for step `i` and each later step from `j` on that depend on each other.
pub open spec fn circular_row(steps: Seq<PlanStep>, i: int, j: int) -> Seq<Seq<char>>
    decreases steps.len() - j,
{
    if j < 0 || j >= steps.len() || i < 0 {
        Seq::empty()
    } else {
        (if mutual(steps[i], steps[j]) {
            seq![circular_message(steps[i], steps[j])]
        } else {
            Seq::<Seq<char>>::empty()
        }) + circular_row(steps, i, j + 1)
    }
}

/// The messages for every pair of steps, from step `i` on, that depend on each other.
pub open spec fn circular_issues(steps: Seq<PlanStep>, i: int) -> Seq<Seq<char>>
    decreases steps.len() - i,
{
    if i < 0 || i >= steps.len() {
        Seq::empty()
    } else {
        circular_row(steps, i, i + 1) + circular_issues(steps, i + 1)
    }
}

/// The problems of a plan, in the order they are reported.
pub open spec fn plan_issues(title: Seq<char>, overview: Seq<char>, steps: Seq<PlanStep>) -> Seq<Seq<char>> {
    (if title.len() == 0 { seq!["Plan title is empty"@] } else { Seq::<Seq<char>>::empty() })
        + (if overview.len() == 0 { seq!["Plan overview is empty"@] } else { Seq::<Seq<char>>::empty() })
        + (if steps.len() == 0 { seq!["Plan has no steps"@] } else { Seq::<Seq<char>>::empty() })
        + step_issues(steps, step_ids(steps))
        + circular_issues(steps, 0)
}

fn push_msg(out: &mut Vec<String>, m: Vec<char>)
    ensures
        string_views(final(out)@) == string_views(old(out)@).push(m@),
{
    let ghost before = out@;
    let s = string_of(m.as_slice());
    out.push(s);
    proof {
        crate::text::lemma_string_views_push(before, s);
    }
}

fn usize_contains(v: &Vec<usize>, x: usize) -> (r: bool)
    ensures
        r == v@.contains(x),
{
    let mut i: usize = 0;
    while i < v.len()
        invariant
            i <= v.len(),
            forall|k: int| 0 <= k < i ==> v@[k] != x,
        decreases v.len() - i,
    {
        if v[i] == x {
            return true;
        }
        i += 1;
    }
    false
}

/// "Step `id`" followed by `tail`.
fn step_message(id: usize, tail: &str) -> (r: Vec<char>)
    ensures
        r@ == "Step "@ + decimal(id as nat) + tail@,
{
    let mut m: Vec<char> = Vec::new();
    append_str(&mut m, "Step ");
    let d = decimal_exec(id as u64);
    append_chars(&mut m, d.as_slice());
    append_str(&mut m, tail);
    m
}

/// The problems of a plan: an empty title or overview, no steps, a
/// dependency on a step that does not exist, a step without description, and
/// two steps that depend on each other.
pub fn validate_plan(plan: &ImplementationPlan) -> (r: Vec<String>)
    ensures
        string_views(r@) == plan_issues(plan.title@, plan.overview@, plan.steps@),
{
    let mut issues: Vec<String> = Vec::new();
    let ghost steps = plan.steps@;
    if plan.title.as_str().is_empty() {
        push_msg(&mut issues, chars_of("Plan title is empty"));
    }
    if plan.overview.as_str().is_empty() {
        push_msg(&mut issues, chars_of("Plan overview is empty"));
    }
    if plan.steps.len() == 0 {
        push_msg(&mut issues, chars_of("Plan has no steps"));
    }
    let ghost head = string_views(issues@);
    assert(head =~= (if plan.title@.len() == 0 { seq!["Plan title is empty"@] } else { Seq::<Seq<char>>::empty() })
        + (if plan.overview@.len() == 0 { seq!["Plan overview is empty"@] } else { Seq::<Seq<char>>::empty() })
        + (if steps.len() == 0 { seq!["Plan has no steps"@] } else { Seq::<Seq<char>>::empty() }));
    let mut ids: Vec<usize> = Vec::new();
    let mut k: usize = 0;
    while k < plan.steps.len()
        invariant
            k <= plan.steps.len(),
            steps == plan.steps@,
            ids@ == step_ids(steps.take(k as int)),
        decreases plan.steps.len() - k,
    {
        ids.push(plan.steps[k].id);
        assert(step_ids(steps.take(k + 1)) =~= step_ids(steps.take(k as int)).push(steps[k as int].id));
        k += 1;
    }
    assert(steps.take(plan.steps.len() as int) =~= steps);
    let ghost idv = step_ids(steps);
    let mut i: usize = 0;
    while i < plan.steps.len()
        invariant
            i <= plan.steps.len(),
            steps == plan.steps@,
            ids@ == idv,
            idv == step_ids(steps),
            string_views(issues@) == head + step_issues(steps.take(i as int), idv),
        decreases plan.steps.len() - i,
    {
        let step = &plan.steps[i];
        assert(steps.take(i + 1).drop_last() =~= steps.take(i as int));
        assert(steps.take(i + 1).last() == *step);
        let ghost mid = string_views(issues@);
        let mut j: usize = 0;
        while j < step.dependencies.len()
            invariant
                j <= step.dependencies.len(),
                ids@ == idv,
                string_views(issues@) == mid + dep_issues(step.id, step.dependencies@.take(j as int), idv),
            decreases step.dependencies.len() - j,
        {
            let dep = step.dependencies[j];
            assert(step.dependencies@.take(j + 1).drop_last() =~= step.dependencies@.take(j as int));
            if !usize_contains(&ids, dep) {
                let mut m = step_message(step.id, " depends on non-existent step ");
                let d = decimal_exec(dep as u64);
                append_chars(&mut m, d.as_slice());
                push_msg(&mut issues, m);
            }
            j += 1;
        }
        assert(step.dependencies@.take(step.dependencies.len() as int) =~= step.dependencies@);
        if step.description.as_str().is_empty() {
            let m = step_message(step.id, " has empty description");
            push_msg(&mut issues, m);
        }
        i += 1;
    }
    assert(steps.take(plan.steps.len() as int) =~= steps);
    let ghost after_steps = string_views(issues@);
    let n = plan.steps.len();
    let mut a: usize = 0;
    while a < n
        invariant
            a <= n,
            n == steps.len(),
            steps == plan.steps@,
            string_views(issues@) + circular_issues(steps, a as int) == after_steps + circular_issues(steps, 0),
        decreases n - a,
    {
        let mut b: usize = a + 1;
        let ghost row_start = string_views(issues@);
        while b < n
            invariant
                a < n,
                a + 1 <= b <= n,
                n == steps.len(),
                steps == plan.steps@,
                string_views(issues@) + circular_row(steps, a as int, b as int) == row_start + circular_row(
                    steps,
                    a as int,
                    a + 1,
                ),
            decreases n - b,
        {
            let sa = &plan.steps[a];
            let sb = &plan.steps[b];
            let ghost before = string_views(issues@);
            if usize_contains(&sa.dependencies, sb.id) && usize_contains(&sb.dependencies, sa.id) {
                let mut m: Vec<char> = Vec::new();
                append_str(&mut m, "Circular dependency between steps ");
                let d1 = decimal_exec(sa.id as u64);
                append_chars(&mut m, d1.as_slice());
                append_str(&mut m, " and ");
                let d2 = decimal_exec(sb.id as u64);
                append_chars(&mut m, d2.as_slice());
                push_msg(&mut issues, m);
                assert(before.push(circular_message(steps[a as int], steps[b as int])) + circular_row(steps, a as int, b + 1)
                    =~= before + circular_row(steps, a as int, b as int));
            } else {
                assert(before + circular_row(steps, a as int, b + 1) =~= before + circular_row(steps, a as int, b as int));
            }
            b += 1;
        }
        assert(string_views(issues@) + circular_issues(steps, a + 1) =~= row_start + circular_issues(steps, a as int));
        a += 1;
    }
    assert(string_views(issues@) + Seq::<Seq<char>>::empty() =~= string_views(issues@));
    assert(string_views(issues@) =~= plan_issues(plan.title@, plan.overview@, plan.steps@));
    issues
}

// ───────────────────────────── describing steps ─────────────────────────────

/// Numbers in decimal, separated by `, ` (as `{:?}` writes the inside of a
/// list of numbers).
pub open spec fn numbers_text(ns: Seq<usize>) -> Seq<char> {
    join(ns.map_values(|n: usize| decimal(n as nat)), ", "@)
}

/// How a step is described to the model that splits a plan into tasks: its
/// id, title and description, the files it changes and the steps it depends
/// on.
pub open spec fn step_summary_text(s: PlanStep) -> Seq<char> {
    "Step "@ + decimal(s.id as nat) + ": "@ + s.title@ + " - "@ + s.description@ + " (files: "@
        + join(string_views(s.files_to_modify@), ", "@) + ", deps: ["@ + numbers_text(s.dependencies@)
        + "])"@
}

/// The steps of a plan described one per line.
pub open spec fn steps_summary_text(steps: Seq<PlanStep>) -> Seq<char> {
    join(steps.map_values(|s: PlanStep| step_summary_text(s)), "\n"@)
}

fn numbers_exec(ns: &Vec<usize>) -> (r: String)
    ensures
        r@ == numbers_text(ns@),
{
    let ghost ds = ns@.map_values(|n: usize| decimal(n as nat));
    let mut parts: Vec<String> = Vec::new();
    let mut i: usize = 0;
    while i < ns.len()
        invariant
            i <= ns.len(),
            ds == ns@.map_values(|n: usize| decimal(n as nat)),
            string_views(parts@) == ds.take(i as int),
        decreases ns.len() - i,
    {
        let d = decimal_exec(ns[i] as u64);
        let t = string_of(d.as_slice());
        let ghost before = parts@;
        parts.push(t);
        proof {
            lemma_string_views_push(before, t);
            assert(ds.take(i + 1) =~= ds.take(i as int).push(t@));
        }
        i += 1;
    }
    assert(ds.take(ns.len() as int) =~= ds);
    crate::tools::join_strings(&parts, ", ")
}

/// Describes a step for the model that splits a plan into tasks.
pub fn step_summary(step: &PlanStep) -> (r: String)
    ensures
        r@ == step_summary_text(*step),
{
    let m = step_message(step.id, ": ");
    let mut r = string_of(m.as_slice());
    push_str(&mut r, step.title.as_str());
    push_str(&mut r, " - ");
    push_str(&mut r, step.description.as_str());
    push_str(&mut r, " (files: ");
    let files = crate::tools::join_strings(&step.files_to_modify, ", ");
    push_str(&mut r, files.as_str());
    push_str(&mut r, ", deps: [");
    let deps = numbers_exec(&step.dependencies);
    push_str(&mut r, deps.as_str());
    push_str(&mut r, "])");
    r
}

/// Describes the steps of a plan, one per line.
pub fn steps_summary(plan: &ImplementationPlan) -> (r: String)
    ensures
        r@ == steps_summary_text(plan.steps@),
{
    let ghost ss = plan.steps@.map_values(|s: PlanStep| step_summary_text(s));
    let mut parts: Vec<String> = Vec::new();
    let mut i: usize = 0;
    while i < plan.steps.len()
        invariant
            i <= plan.steps.len(),
            ss == plan.steps@.map_values(|s: PlanStep| step_summary_text(s)),
            string_views(parts@) == ss.take(i as int),
        decreases plan.steps.len() - i,
    {
        let t = step_summary(&plan.steps[i]);
        let ghost before = parts@;
        parts.push(t);
        proof {
            lemma_string_views_push(before, t);
            assert(ss.take(i + 1) =~= ss.take(i as int).push(t@));
        }
        i += 1;
    }
    assert(ss.take(plan.steps.len() as int) =~= ss);
    crate::tools::join_strings(&parts, "\n")
}

} // verus!
