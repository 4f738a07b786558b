//! Tools offered by MCP servers: their names in the agent, and what a call's
//! result gives the model.
use vstd::prelude::*;
use crate::json::{content_items, item_views, json_bool, json_bool_field, json_compact, json_compact_text, json_content_items, json_pretty, json_pretty_text};
use crate::text::{join, owned, push_str, str_eq, string_views};

verus! {

/// The name under which the tool `tool` of the server `server` is offered.
pub open spec fn bridged_name(server: Seq<char>, tool: Seq<char>) -> Seq<char> {
    "mcp__"@ + server + "__"@ + tool
}

/// The name under which a server's tool is offered to the model.
pub fn bridge_tool_name(server: &str, tool: &str) -> (r: String)
    ensures
        r@ == bridged_name(server@, tool@),
{
    let mut r = owned("mcp__");
    push_str(&mut r, server);
    push_str(&mut r, "__");
    push_str(&mut r, tool);
    r
}

/// The texts of the content items whose type is `"text"` and that have a
/// text, in order.
pub open spec fn text_items(items: Seq<(Option<Seq<char>>, Option<Seq<char>>)>) -> Seq<Seq<char>>
    decreases items.len(),
{
    if items.len() == 0 {
        Seq::empty()
    } else {
        let rest = text_items(items.drop_last());
        let (kind, text) = items.last();
        if kind == Some("text"@) && text is Some {
            rest.push(text->0)
        } else {
            rest
        }
    }
}

/// What the result `result` (JSON text) of a tool call gives: the texts of
/// its content, one per line (the whole result, indented, when it has none);
/// without content, an error when it says so, else the whole result.
pub open spec fn mcp_output(result: Seq<char>) -> Result<Seq<char>, Seq<char>> {
    match content_items(result) {
        Some(items) => {
            let texts = text_items(items);
            if texts.len() == 0 { Ok(json_pretty_text(result)) } else { Ok(join(texts, "\n"@)) }
        },
        None => match json_bool_field(result, "isError"@) {
            Some(true) => Err("MCP tool error: "@ + json_compact_text(result)),
            _ => Ok(json_pretty_text(result)),
        },
    }
}

/// The answer of a tool of an MCP server, from the JSON text of its result.
pub fn tool_output(result: &str) -> (r: Result<String, String>)
    ensures
        match r {
            Ok(t) => mcp_output(result@) == Ok::<Seq<char>, Seq<char>>(t@),
            Err(e) => mcp_output(result@) == Err::<Seq<char>, Seq<char>>(e@),
        },
{
    match json_content_items(result) {
        Some(items) => {
            let texts = texts_of(&items);
            if texts.len() == 0 {
                Ok(json_pretty(result))
            } else {
                Ok(join_lines(&texts))
            }
        },
        None => match json_bool(result, "isError") {
            Some(true) => {
                let mut e = owned("MCP tool error: ");
                let c = json_compact(result);
                push_str(&mut e, c.as_str());
                Err(e)
            },
            _ => Ok(json_pretty(result)),
        },
    }
}

/// The texts of the text items among `items`.
fn texts_of(items: &Vec<(Option<String>, Option<String>)>) -> (r: Vec<String>)
    ensures
        string_views(r@) == text_items(item_views(items@)),
{
    let mut r: Vec<String> = Vec::new();
    let mut i: usize = 0;
    while i < items.len()
        invariant
            i <= items.len(),
            string_views(r@) == text_items(item_views(items@).take(i as int)),
        decreases items.len() - i,
    {
        let ghost before = r@;
        let is_text = match &items[i].0 {
            Some(t) => str_eq(t.as_str(), "text"),
            None => false,
        };
        proof {
            assert(item_views(items@).take(i as int + 1).drop_last() =~= item_views(items@).take(i as int));
        }
        if is_text {
            match &items[i].1 {
                Some(x) => {
                    r.push(x.clone());
                    proof {
                        assert(string_views(r@) =~= string_views(before).push(x@));
                    }
                },
                None => {},
            }
        }
        i = i + 1;
    }
    proof {
        assert(item_views(items@).take(items.len() as int) =~= item_views(items@));
    }
    r
}

/// Texts joined by line breaks.
fn join_lines(v: &Vec<String>) -> (r: String)
    ensures
        r@ == join(string_views(v@), "\n"@),
{
    crate::tools::join_strings(v, "\n")
}

} // verus!
