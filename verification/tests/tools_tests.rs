use coding_agent::tools::{
    resolve_path, FileEditTool, FileReadTool, FileWriteTool, GitCommitTool, GitDiffTool,
    GitStatusTool, GlobTool, GrepTool, LsTool, ShellTool, SkillListTool, SkillReadTool,
    WebSearchTool,
};

#[test]
fn read_window_numbers_lines() {
    let content = "a\nb\nc\nd";
    assert_eq!(FileReadTool::window(content, 0, 2000), "1: a\n2: b\n3: c\n4: d\n");
    assert_eq!(
        FileReadTool::window(content, 1, 2),
        "2: b\n3: c\n\n(Showing lines 2-3 of 4 total. Use offset to read more.)"
    );
    assert_eq!(FileReadTool::window(content, 10, 2), "");
    assert_eq!(
        FileReadTool::request("{\"path\":\"x\",\"offset\":3}"),
        Ok(("x".to_string(), 3, 2000))
    );
    assert_eq!(FileReadTool::request("{}"), Err("Missing 'path' argument".to_string()));
}

#[test]
fn edit_replaces_first_occurrence() {
    assert_eq!(FileEditTool::edit("f", "aXbXc", "X", "--"), Ok("a--bXc".to_string()));
    assert_eq!(FileEditTool::edit("f", "abc", "Z", "--"), Err("old_string not found in 'f'".to_string()));
    assert_eq!(FileEditTool::done_message("f"), "Successfully edited f");
    assert_eq!(
        FileEditTool::request("{\"path\":\"p\",\"old_string\":\"o\"}"),
        Err("Missing 'new_string' argument".to_string())
    );
    assert_eq!(FileWriteTool::done_message("p"), "Successfully written to p");
    assert_eq!(FileWriteTool::request("{\"path\":\"p\"}"), Err("Missing 'content' argument".to_string()));
}

#[test]
fn shell_answers() {
    assert_eq!(ShellTool::answer(true, Some(0), "", ""), "(command completed successfully with no output)");
    assert_eq!(ShellTool::answer(true, Some(0), "out", ""), "out");
    assert_eq!(ShellTool::answer(true, Some(0), "out", "warn"), "out\n[stderr]\nwarn");
    assert_eq!(ShellTool::answer(false, None, "o", "e"), "o\n[stderr]\ne\n[exit code: -1]");
    assert_eq!(ShellTool::answer(false, Some(2), "", "e"), "\n[stderr]\ne\n[exit code: 2]");
    assert_eq!(ShellTool::timeout_answer(500), "[timeout] Command timed out after 500ms");
    assert_eq!(ShellTool::request("{\"command\":\"ls\"}"), Ok(("ls".to_string(), 30000)));
}

#[test]
fn git_answers() {
    assert_eq!(GitStatusTool::answer(true, "", ""), "Working tree clean.");
    assert_eq!(GitStatusTool::answer(false, "a", "b"), "a\n[stderr]\nb");
    assert_eq!(GitDiffTool::answer("", ""), "No changes.");
    assert_eq!(GitDiffTool::answer("u", "s"), "--- Unstaged changes ---\nu\n--- Staged changes ---\ns");
    assert_eq!(GitDiffTool::answer("", "s"), "--- Staged changes ---\ns");
    assert_eq!(
        GitCommitTool::request("{\"message\":\"m\"}"),
        Ok(("m".to_string(), vec!["-A".to_string()]))
    );
    assert_eq!(
        GitCommitTool::request("{\"message\":\"m\",\"files\":[]}"),
        Ok(("m".to_string(), vec!["-A".to_string()]))
    );
    assert_eq!(
        GitCommitTool::request("{\"message\":\"m\",\"files\":[\"a\",1,\"b\"]}"),
        Ok(("m".to_string(), vec!["a".to_string(), "b".to_string()]))
    );
    assert_eq!(
        GitCommitTool::request("{\"message\":\"m\",\"files\":[1]}"),
        Ok(("m".to_string(), vec![]))
    );
    assert_eq!(GitCommitTool::request("{}"), Err("Missing 'message' argument".to_string()));
    assert_eq!(GitCommitTool::add_failed("x"), "git add failed:\nx");
    assert_eq!(GitCommitTool::answer(false, "o", "e"), "o\n[stderr]\ne");
}

#[test]
fn listings() {
    assert_eq!(
        LsTool::listing(".", vec!["file  1 B  b".to_string(), "dir  0 B  a".to_string()]),
        "dir  0 B  a\nfile  1 B  b"
    );
    assert_eq!(LsTool::listing("x", vec![]), "(empty directory: x)");
    assert!(!LsTool::shown(".git", false));
    assert!(LsTool::shown(".git", true));
    assert_eq!(LsTool::entry_line("dir", "4.0 KB", "src"), "dir  4.0 KB  src");
    assert_eq!(LsTool::request("{}"), (".".to_string(), false));
    assert_eq!(SkillListTool::entry("s", true), "  ✓ s");
    assert_eq!(SkillListTool::answer(&vec![]), "No skills found.");
    assert_eq!(
        SkillListTool::section("/d", &vec!["  ✓ a".to_string(), "  ○ b".to_string()]),
        "/d:\n  ✓ a\n  ○ b"
    );
    assert_eq!(SkillReadTool::not_found("x"), "Skill 'x' not found.");
    assert_eq!(SkillReadTool::found("x", "/d", "c"), "Skill 'x' from /d:\n\nc");
    assert_eq!(GlobTool::full_pattern("/a/", "*.rs"), "/a/*.rs");
    assert_eq!(GlobTool::full_pattern("/a", "*.rs"), "/a/*.rs");
    assert_eq!(GlobTool::answer("*.x", &vec![]), "No files found matching '*.x'");
    assert_eq!(GrepTool::match_line("f.rs", 3, "fn main"), "f.rs:3: fn main");
    assert_eq!(GrepTool::answer("p", &vec![]), "No matches found for 'p'");
}

#[test]
fn paths_resolve() {
    assert_eq!(resolve_path("/etc/x", "/home"), "/etc/x");
    assert_eq!(resolve_path("a/b", "/home"), "/home/a/b");
}

#[test]
fn web_search_reads_results() {
    let html = "<a class=\"result__a\" href=\"https://x.org\">Example Title</a>\n<span class=result__snippet>A snippet</a>\n<a class=\"result__a\" href=\"\">tiny</a>";
    let out = WebSearchTool::answer("q", html, 5);
    assert_eq!(
        out,
        "Search results for 'q':\n\n1. Example Title\n   URL: https://x.org\n   A snippet"
    );
    let none = WebSearchTool::answer("q", "nothing", 5);
    assert!(none.contains("Raw HTML length: 7 bytes"));
    assert_eq!(WebSearchTool::request("{\"query\":\"a\",\"num_results\":50}"), Ok(("a".to_string(), 10)));
    assert_eq!(
        WebSearchTool::search_url("a b"),
        "https://html.duckduckgo.com/html/?q=a%20b"
    );
}

#[test]
fn mcp_bridge_name_joins_server_and_tool() {
    assert_eq!(coding_agent::mcp::bridge_tool_name("fs", "read"), "mcp__fs__read");
}

#[test]
fn mcp_output_joins_content_texts() {
    let r = coding_agent::mcp::tool_output(r#"{"content":[{"type":"text","text":"a"},{"type":"text","text":"b"}]}"#);
    assert_eq!(r, Ok("a\nb".to_string()));
}

#[test]
fn mcp_output_reports_error_flag() {
    let r = coding_agent::mcp::tool_output(r#"{"isError":true}"#);
    assert_eq!(r, Err("MCP tool error: {\"isError\":true}".to_string()));
}

#[test]
fn mcp_output_pretty_prints_plain_result() {
    let r = coding_agent::mcp::tool_output(r#"{"ok":1}"#);
    assert_eq!(r, Ok("{\n  \"ok\": 1\n}".to_string()));
}

#[test]
fn grep_search_numbers_matching_lines() {
    let p = coding_agent::tools::LinePattern::compile("fo+").ok().unwrap();
    let found = GrepTool::search_content("a.rs", "foo\nbar\nfoo bar\r\n", &p);
    assert_eq!(found, vec!["a.rs:1: foo".to_string(), "a.rs:3: foo bar".to_string()]);
    assert!(p.is_match("xfooy"));
    assert!(!p.is_match("bar"));
}

#[test]
fn grep_rejects_invalid_patterns() {
    match coding_agent::tools::LinePattern::compile("(") {
        Err(e) => assert!(e.starts_with("Invalid regex '(': ")),
        Ok(_) => panic!("an unclosed group compiled"),
    }
    match coding_agent::tools::NamePattern::compile("[") {
        Err(e) => assert!(e.starts_with("Invalid include pattern '[': ")),
        Ok(_) => panic!("an unclosed class compiled"),
    }
}

#[test]
fn grep_include_glob_matches_file_names() {
    let g = coding_agent::tools::NamePattern::compile("*.rs").ok().unwrap();
    assert!(g.matches("main.rs"));
    assert!(!g.matches("Cargo.toml"));
}

#[test]
fn search_tools_read_their_arguments() {
    assert_eq!(
        GrepTool::request("{\"pattern\":\"fn\",\"include\":\"*.rs\"}"),
        Ok(("fn".to_string(), ".".to_string(), Some("*.rs".to_string())))
    );
    assert_eq!(GrepTool::request("{\"path\":\"src\"}"), Err("Missing 'pattern' argument".to_string()));
    assert_eq!(
        GlobTool::request("{\"pattern\":\"*.toml\",\"path\":\"x\"}"),
        Ok(("*.toml".to_string(), "x".to_string()))
    );
    assert_eq!(GitDiffTool::request("{\"path\":\"a.rs\"}"), Some("a.rs".to_string()));
    assert_eq!(GitDiffTool::request("{}"), None);
    assert_eq!(SkillReadTool::request("{\"name\":\"k\"}"), Ok("k".to_string()));
    assert_eq!(SkillReadTool::request("{}"), Err("Missing 'name' argument".to_string()));
}

#[test]
fn search_url_percent_encodes_all_but_safe_characters() {
    assert_eq!(
        WebSearchTool::search_url("rust & verus~1.0_x-y"),
        "https://html.duckduckgo.com/html/?q=rust%20%26%20verus~1.0_x-y"
    );
    assert_eq!(WebSearchTool::search_url("é"), "https://html.duckduckgo.com/html/?q=%C3%A9");
}
