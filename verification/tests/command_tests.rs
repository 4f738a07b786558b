use coding_agent::cli::{parse_command, title_cut, ReplCommand};
use coding_agent::tools::{default_tool_names, readonly_tool_names};

#[test]
fn command_words_choose_the_command() {
    assert_eq!(parse_command("/q"), ReplCommand::Quit);
    assert_eq!(parse_command("/exit now"), ReplCommand::Quit);
    assert_eq!(parse_command("/?"), ReplCommand::Help);
    assert_eq!(parse_command("/sessions"), ReplCommand::Sessions);
    assert_eq!(parse_command("/new"), ReplCommand::NewSession);
    assert_eq!(parse_command("/mcp"), ReplCommand::McpServers);
    assert_eq!(parse_command("/mcp tools"), ReplCommand::McpServers);
    assert_eq!(parse_command("/mcp add x y"), ReplCommand::McpServers);
}

#[test]
fn commands_with_arguments() {
    assert_eq!(parse_command("/plan  build it "), ReplCommand::Plan("build it".to_string()));
    assert_eq!(parse_command("/brainstorm an idea"), ReplCommand::Brainstorm("an idea".to_string()));
    assert_eq!(parse_command("/session ab12"), ReplCommand::Session("ab12".to_string()));
    assert_eq!(parse_command("/skill create tidy"), ReplCommand::SkillCreate("tidy".to_string()));
    assert_eq!(parse_command("/skill evolve"), ReplCommand::SkillEvolve);
    assert_eq!(
        parse_command("/skill use fmt  the code"),
        ReplCommand::SkillUse("fmt".to_string(), " the code".to_string())
    );
    assert_eq!(parse_command("/skill use fmt"), ReplCommand::Usage("Please specify a task.".to_string()));
    assert_eq!(parse_command("/skill tidy"), ReplCommand::Skill("tidy".to_string()));
    assert_eq!(parse_command("/plan \t"), ReplCommand::Usage("Usage: /plan <task description>".to_string()));
}

#[test]
fn unknown_commands_name_their_word() {
    assert_eq!(parse_command("/skill"), ReplCommand::Unknown("/skill".to_string()));
    assert_eq!(parse_command("/frob a b"), ReplCommand::Unknown("/frob".to_string()));
    assert_eq!(parse_command("/plan"), ReplCommand::Unknown("/plan".to_string()));
}

#[test]
fn titles_are_cut_by_bytes() {
    assert_eq!(title_cut("short", 40), "short");
    assert_eq!(title_cut("abcdefghij", 4), "abcd...");
    assert_eq!(title_cut("héllo wörld", 3), "hé...");
}

#[test]
fn tool_sets() {
    let all = default_tool_names();
    let ro = readonly_tool_names();
    assert_eq!(all.len(), 13);
    assert_eq!(ro.len(), 8);
    assert!(ro.iter().all(|n| all.contains(n)));
    assert!(!ro.contains(&"shell"));
    assert!(!ro.contains(&"file_write"));
}
