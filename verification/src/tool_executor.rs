//! How the tool calls of one response are grouped: calls that only read run
//! together, any other call runs alone, and the order of the calls is kept.
use vstd::prelude::*;
use crate::json::{json_compact, json_compact_text};
use crate::message::{calls_view, ToolCall, ToolCallView};
use crate::text::str_eq;

verus! {

/// What running a tool call gave.
#[derive(Debug)]
pub struct ToolResult {
    pub tool_call_id: String,
    pub name: String,
    /// The JSON text of the arguments.
    pub arguments: String,
    pub arguments_hash: String,
    pub output: String,
}

/// Tools whose calls may run at the same time as each other.
pub open spec fn parallelizable(name: Seq<char>) -> bool {
    name == "file_read"@ || name == "grep"@ || name == "glob"@ || name == "ls"@ || name
        == "git_status"@ || name == "git_diff"@
}

/// Tools whose calls change something and so run alone.
pub open spec fn exclusive(name: Seq<char>) -> bool {
    name == "file_write"@ || name == "file_edit"@ || name == "shell"@ || name == "git_commit"@
}

/// Whether calls of the tool may run together.
pub fn is_parallelizable(name: &str) -> (r: bool)
    ensures
        r == parallelizable(name@),
{
    str_eq(name, "file_read") || str_eq(name, "grep") || str_eq(name, "glob") || str_eq(name, "ls")
        || str_eq(name, "git_status") || str_eq(name, "git_diff")
}

/// Whether calls of the tool must run alone.
pub fn is_exclusive(name: &str) -> (r: bool)
    ensures
        r == exclusive(name@),
{
    str_eq(name, "file_write") || str_eq(name, "file_edit") || str_eq(name, "shell") || str_eq(
        name,
        "git_commit",
    )
}

/// `groups` with the pending group `cur` closed, if it holds anything.
pub open spec fn close_group(groups: Seq<Seq<int>>, cur: Seq<int>) -> Seq<Seq<int>> {
    if cur.len() > 0 {
        groups.push(cur)
    } else {
        groups
    }
}

/// The closed groups and the pending group of parallel calls after the first
/// `n` calls, given by their tool names.
pub open spec fn partition_upto(names: Seq<Seq<char>>, n: int) -> (Seq<Seq<int>>, Seq<int>)
    decreases n,
{
    if n <= 0 {
        (Seq::empty(), Seq::empty())
    } else {
        let (g, c) = partition_upto(names, n - 1);
        if parallelizable(names[n - 1]) {
            (g, c.push(n - 1))
        } else {
            (close_group(g, c).push(seq![n - 1]), Seq::empty())
        }
    }
}

/// The groups of the calls with tool names `names`, as indices in order.
pub open spec fn partition(names: Seq<Seq<char>>) -> Seq<Seq<int>> {
    let (g, c) = partition_upto(names, names.len() as int);
    close_group(g, c)
}

/// The tool names of calls.
pub open spec fn names_of(calls: Seq<ToolCallView>) -> Seq<Seq<char>> {
    calls.map_values(|c: ToolCallView| c.name)
}

/// The index groups as plain integers.
pub open spec fn groups_view(v: Seq<Vec<usize>>) -> Seq<Seq<int>> {
    v.map_values(|g: Vec<usize>| g@.map_values(|i: usize| i as int))
}

/// Groups the calls: consecutive calls that only read form one group; any
/// other call forms a group of its own. Every call is in exactly one group,
/// and the groups keep the order of the calls.
pub fn partition_parallel(calls: &[ToolCall]) -> (r: Vec<Vec<usize>>)
    ensures
        groups_view(r@) == partition(names_of(calls_view(calls@))),
{
    let ghost names = names_of(calls_view(calls@));
    let mut groups: Vec<Vec<usize>> = Vec::new();
    let mut current: Vec<usize> = Vec::new();
    let mut i: usize = 0;
    while i < calls.len()
        invariant
            i <= calls.len(),
            names == names_of(calls_view(calls@)),
            names.len() == calls.len(),
            (groups_view(groups@), current@.map_values(|k: usize| k as int)) == partition_upto(names, i as int),
        decreases calls.len() - i,
    {
        assert(names[i as int] == calls@[i as int].name@);
        let ghost g0 = groups_view(groups@);
        let ghost c0 = current@.map_values(|k: usize| k as int);
        if is_parallelizable(calls[i].name.as_str()) {
            current.push(i);
            assert(current@.map_values(|k: usize| k as int) =~= c0.push(i as int));
        } else {
            if current.len() > 0 {
                let done = current;
                let ghost before = groups@;
                groups.push(done);
                assert(groups_view(groups@) =~= g0.push(c0));
                current = Vec::new();
            }
            let ghost mid = groups@;
            let mut single: Vec<usize> = Vec::new();
            single.push(i);
            assert(single@.map_values(|k: usize| k as int) =~= seq![i as int]);
            groups.push(single);
            assert(groups_view(groups@) =~= groups_view(mid).push(seq![i as int]));
            assert(current@.map_values(|k: usize| k as int) =~= Seq::<int>::empty());
        }
        i += 1;
    }
    if current.len() > 0 {
        let ghost g0 = groups_view(groups@);
        let ghost c0 = current@.map_values(|k: usize| k as int);
        groups.push(current);
        assert(groups_view(groups@) =~= g0.push(c0));
    }
    groups
}

/// The groups laid end to end.
pub open spec fn flatten(groups: Seq<Seq<int>>) -> Seq<int>
    decreases groups.len(),
{
    if groups.len() == 0 {
        Seq::empty()
    } else {
        flatten(groups.drop_last()) + groups.last()
    }
}

/// The integers `0..n` in order.
pub open spec fn indices(n: int) -> Seq<int> {
    Seq::new(if n >= 0 { n as nat } else { 0 }, |i: int| i)
}

proof fn lemma_flatten_push(groups: Seq<Seq<int>>, g: Seq<int>)
    ensures
        flatten(groups.push(g)) == flatten(groups) + g,
{
    assert(groups.push(g).drop_last() =~= groups);
}

proof fn lemma_partition_upto(names: Seq<Seq<char>>, n: int)
    requires
        0 <= n <= names.len(),
    ensures
        flatten(partition_upto(names, n).0) + partition_upto(names, n).1 == indices(n),
        forall|k: int| 0 <= k < partition_upto(names, n).0.len() ==> (#[trigger] partition_upto(names, n).0[k]).len() > 0,
        forall|k: int| 0 <= k < partition_upto(names, n).0.len() && partition_upto(names, n).0[k].len() > 1
            ==> forall|j: int| 0 <= j < partition_upto(names, n).0[k].len() ==> parallelizable(
                names[#[trigger] partition_upto(names, n).0[k][j]],
            ),
        forall|j: int| 0 <= j < partition_upto(names, n).1.len() ==> parallelizable(
            names[#[trigger] partition_upto(names, n).1[j]],
        ),
        forall|j: int| 0 <= j < partition_upto(names, n).1.len() ==> 0 <= #[trigger] partition_upto(names, n).1[j] < n,
        forall|k: int, j: int| 0 <= k < partition_upto(names, n).0.len() && 0 <= j < partition_upto(names, n).0[k].len()
            ==> 0 <= #[trigger] partition_upto(names, n).0[k][j] < n,
    decreases n,
{
    if n > 0 {
        lemma_partition_upto(names, n - 1);
        let (g, c) = partition_upto(names, n - 1);
        if parallelizable(names[n - 1]) {
            assert(flatten(g) + c.push(n - 1) =~= (flatten(g) + c).push(n - 1));
            assert(indices(n - 1).push(n - 1) =~= indices(n));
        } else {
            let g2 = close_group(g, c);
            if c.len() > 0 {
                lemma_flatten_push(g, c);
            }
            assert(flatten(g2) == flatten(g) + c) by {
                if c.len() == 0 {
                    assert(flatten(g) + c =~= flatten(g));
                }
            }
            lemma_flatten_push(g2, seq![n - 1]);
            assert(indices(n - 1) + seq![n - 1] =~= indices(n));
            assert(flatten(g2.push(seq![n - 1])) + Seq::<int>::empty() =~= indices(n));
        }
    }
}

/// Every call is in exactly one group and the groups keep the calls' order;
/// no group is empty; a group of more than one call holds only calls that
/// only read.
pub proof fn law_partition_covers_in_order(names: Seq<Seq<char>>)
    ensures
        flatten(partition(names)) == indices(names.len() as int),
        forall|k: int| 0 <= k < partition(names).len() ==> (#[trigger] partition(names)[k]).len() > 0,
        forall|k: int| 0 <= k < partition(names).len() && partition(names)[k].len() > 1 ==> forall|j: int|
            0 <= j < partition(names)[k].len() ==> parallelizable(names[#[trigger] partition(names)[k][j]]),
{
    lemma_partition_upto(names, names.len() as int);
    let (g, c) = partition_upto(names, names.len() as int);
    if c.len() > 0 {
        lemma_flatten_push(g, c);
    } else {
        assert(flatten(g) + c =~= flatten(g));
    }
}

/// The hash text that the loop uses to tell identical calls apart: the
/// hexadecimal `DefaultHasher` hash of a text.
pub uninterp spec fn hash_hex_text(s: Seq<char>) -> Seq<char>;

/// Hashes `s` with a `DefaultHasher` made by `DefaultHasher::new` (whose
/// instances all hash alike) and writes the hash in lower-case hexadecimal.
/// The contract only names the result.
#[verifier::external_body]
fn hash_hex(s: &str) -> (r: String)
    ensures
        r@ == hash_hex_text(s@),
{
    let mut h = std::collections::hash_map::DefaultHasher::new();
    std::hash::Hash::hash(s, &mut h);
    format!("{:x}", std::hash::Hasher::finish(&h))
}

/// The hash of the arguments of a call: the hash of their compact JSON text.
pub fn compute_arguments_hash(args: &str) -> (r: String)
    ensures
        r@ == hash_hex_text(json_compact_text(args@)),
{
    let compact = json_compact(args);
    hash_hex(compact.as_str())
}

} // verus!
