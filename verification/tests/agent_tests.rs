use coding_agent::file_diff::{ChangeType, FileDiff};
use coding_agent::hooks::{HookConfig, HookEvent, HookExecutor, HookResult, HookStep};
use coding_agent::learning_loop::{format_messages, nudge_due, nudge_from_response};
use coding_agent::message::{Message, ToolCall};
use coding_agent::permissions::{detect_dangerous_command, PermissionManager, PermissionMode, PermissionResult};
use coding_agent::planner::{extract_json, extract_json_array, validate_plan, ImplementationPlan, PlanStep};
use coding_agent::session::{sort_by_recency, Session};
use coding_agent::skills::{extract_body, extract_field_str, extract_field_u32, extract_frontmatter_field, parse_frontmatter, should_create_skill, skill_from_content, CustomSkillTool};
use coding_agent::snapshot::{oldest_to_drop, parse_diff_full, parse_log_oneline, parse_name_list, SnapshotDiffStatus};
use coding_agent::subagent::{extract_file_paths, extract_findings, failure_result, has_no_round_bullets, success_result, SubagentTask, SubagentType};
use coding_agent::tool_executor::{compute_arguments_hash, partition_parallel};

fn make_tc(id: &str, name: &str) -> ToolCall {
    ToolCall::new(id, name, "{}")
}

#[test]
fn test_partition_all_parallel() {
    let calls = vec![make_tc("1", "file_read"), make_tc("2", "grep"), make_tc("3", "glob")];
    let groups = partition_parallel(&calls);
    assert_eq!(groups.len(), 1);
    assert_eq!(groups[0], vec![0, 1, 2]);
}

#[test]
fn test_partition_exclusive_breaks() {
    let calls = vec![
        make_tc("1", "file_read"),
        make_tc("2", "grep"),
        make_tc("3", "shell"),
        make_tc("4", "file_read"),
    ];
    let groups = partition_parallel(&calls);
    assert_eq!(groups.len(), 3);
    assert_eq!(groups[0], vec![0, 1]);
    assert_eq!(groups[1], vec![2]);
    assert_eq!(groups[2], vec![3]);
}

#[test]
fn test_partition_write_not_parallel() {
    let calls = vec![make_tc("1", "file_write"), make_tc("2", "file_edit")];
    let groups = partition_parallel(&calls);
    assert_eq!(groups.len(), 2);
    assert_eq!(groups[0], vec![0]);
    assert_eq!(groups[1], vec![1]);
}

#[test]
fn partition_unknown_tool_runs_alone_and_empty_gives_nothing() {
    let calls = vec![make_tc("1", "grep"), make_tc("2", "custom"), make_tc("3", "ls")];
    assert_eq!(partition_parallel(&calls), vec![vec![0], vec![1], vec![2]]);
    assert!(partition_parallel(&[]).is_empty());
}

#[test]
fn arguments_hash_ignores_formatting() {
    let a = compute_arguments_hash("{\"a\": 1}");
    let b = compute_arguments_hash("{\"a\":1}");
    assert_eq!(a, b);
    assert_ne!(a, compute_arguments_hash("{\"a\":2}"));
}

#[test]
fn permission_modes() {
    assert_eq!(PermissionMode::from_str("PLAN"), PermissionMode::Plan);
    assert_eq!(PermissionMode::from_str("yolo"), PermissionMode::Yolo);
    assert_eq!(PermissionMode::from_str("whatever"), PermissionMode::Default);

    let pm = PermissionManager::new(PermissionMode::Plan);
    assert!(matches!(pm.check("file_read", "{}"), PermissionResult::Allowed));
    match pm.check("shell", "{}") {
        PermissionResult::Denied(m) => assert_eq!(m, "Plan mode: read-only, no modifications allowed"),
        other => panic!("unexpected {:?}", other),
    }

    let mut pm = PermissionManager::new(PermissionMode::Default);
    match pm.check("shell", "{\"command\":\"sudo rm -rf / \"}") {
        PermissionResult::Denied(m) => assert_eq!(m, "Dangerous: recursive delete from root"),
        other => panic!("unexpected {:?}", other),
    }
    match pm.check("file_write", "{\"path\": \"a.txt\"}") {
        PermissionResult::NeedsApproval(m) => {
            assert_eq!(m, "Tool 'file_write' requires approval. Args: {\"path\":\"a.txt\"}")
        }
        other => panic!("unexpected {:?}", other),
    }
    assert!(matches!(pm.check("grep", "{}"), PermissionResult::Allowed));
    pm.set_mode(PermissionMode::Yolo);
    assert_eq!(*pm.mode(), PermissionMode::Yolo);
    assert!(matches!(pm.check("shell", "{\"command\":\"rm -rf /\"}"), PermissionResult::Allowed));
}

#[test]
fn dangerous_commands() {
    assert_eq!(detect_dangerous_command("CURL|SH"), Some("Dangerous: pipe to shell".to_string()));
    assert_eq!(detect_dangerous_command("ls -la"), None);
    assert_eq!(detect_dangerous_command("mkfs.ext4 /dev/sda"), Some("Dangerous: filesystem formatting".to_string()));
}

#[test]
fn file_diff_changes_and_colors() {
    let out = "Successfully written to src/a.rs\nnothing here\nSuccessfully edited b.txt, ok\nDeleted file: old.md.";
    let changes = FileDiff::extract_changes(out);
    assert_eq!(changes.len(), 3);
    assert_eq!(changes[0].path, "src/a.rs");
    assert_eq!(changes[0].change_type, ChangeType::Added);
    assert_eq!(changes[1].path, "b.txt");
    assert_eq!(changes[1].change_type, ChangeType::Modified);
    assert_eq!(changes[2].path, "old.md");
    assert_eq!(changes[2].change_type, ChangeType::Deleted);
    assert_eq!(FileDiff::extract_path_from_success("nothing"), None);

    let colored = FileDiff::format_diff_colored("+++ b/x\n+add\n-del\n@@ -1 +1 @@\nctx");
    assert_eq!(
        colored,
        "+++ b/x\n\x1b[32m+add\x1b[0m\n\x1b[31m-del\x1b[0m\n\x1b[36m@@ -1 +1 @@\x1b[0m\nctx\n"
    );
    let d = FileDiff::diff("a\nb\n", "a\nc\n", "f.txt");
    assert!(d.starts_with("--- a/f.txt\n+++ b/f.txt\n"));
    assert!(d.contains("-b"));
    assert!(d.contains("+c"));
}

#[test]
fn hook_decisions() {
    let mut exec = HookExecutor::new();
    exec.add_hook(HookConfig {
        event: HookEvent::PreToolUse,
        command: "echo ok".to_string(),
        timeout_ms: 5000,
        blocking: true,
    });
    exec.add_hook(HookConfig { event: HookEvent::Stop, ..HookConfig::default() });
    assert_eq!(exec.hooks_for(&HookEvent::PreToolUse).len(), 1);
    assert_eq!(exec.hooks_for(&HookEvent::SessionEnd).len(), 0);

    assert_eq!(HookExecutor::classify_exit(Some(0), ""), HookResult::Pass);
    assert_eq!(HookExecutor::classify_exit(Some(2), ""), HookResult::Block("blocked by hook".to_string()));
    assert_eq!(HookExecutor::classify_exit(Some(2), "no"), HookResult::Block("no".to_string()));
    assert_eq!(HookExecutor::classify_exit(Some(-3), "x"), HookResult::Warn("exit -3: x".to_string()));
    assert_eq!(HookExecutor::classify_exit(None, ""), HookResult::Error("Hook terminated by signal".to_string()));

    match HookExecutor::step(None, false, HookResult::Block("r".to_string())) {
        HookStep::Continue(Some(r)) => assert_eq!(HookExecutor::finish(Some(r)), HookResult::Warn("r".to_string())),
        other => panic!("unexpected {:?}", other),
    }
    assert_eq!(
        HookExecutor::step(None, true, HookResult::Block("r".to_string())),
        HookStep::Decided(HookResult::Block("r".to_string()))
    );
    assert_eq!(HookExecutor::finish(None), HookResult::Pass);
}

#[test]
fn subagent_tasks_and_reports() {
    let t = SubagentTask::explore("find bugs", "in src");
    assert_eq!(t.task_type, SubagentType::Explore);
    assert_eq!(t.max_iterations, 10);
    assert_eq!(t.full_prompt(), "Context:\nin src\n\nfind bugs");
    let g = SubagentTask::general("do it", "");
    assert_eq!(g.full_prompt(), "do it");

    let text = "Found:\nsrc/main.rs: entry\n  crates/a/lib.rs,\nsrc/main.rs\n- first finding\n* second  \nplain";
    assert_eq!(extract_file_paths(text), vec!["crates/a/lib.rs", "src/main.rs"]);
    assert!(has_no_round_bullets(text));
    assert_eq!(extract_findings(text), vec!["first finding", "second"]);
    assert!(!has_no_round_bullets("• x"));
    let r = success_result(text.to_string());
    assert_eq!(r.status, "success");
    assert_eq!(r.files_touched.len(), 2);
    let f = failure_result("boom");
    assert_eq!(f.summary, "Subagent failed: boom");
}

#[test]
fn test_extract_json() {
    let text = "Here is the result: {\"key\": \"value\"} done.";
    assert_eq!(extract_json(text), "{\"key\": \"value\"}");
}

#[test]
fn test_extract_json_array() {
    let text = "Here is the result: [{\"key\": \"value\"}] done.";
    assert_eq!(extract_json_array(text), "[{\"key\": \"value\"}]");
}

#[test]
fn test_extract_json_array_none() {
    assert_eq!(extract_json_array("no json here"), "[]");
}

#[test]
fn extract_json_without_braces_gives_text() {
    assert_eq!(extract_json("plain"), "plain");
    assert_eq!(extract_json("a}{b"), "");
}

fn step(id: usize, desc: &str, deps: Vec<usize>) -> PlanStep {
    PlanStep {
        id,
        title: format!("S{}", id),
        description: desc.to_string(),
        files_to_modify: vec![],
        estimated_minutes: 10,
        dependencies: deps,
    }
}

#[test]
fn test_validate_plan_empty_title() {
    let plan = ImplementationPlan {
        title: String::new(),
        overview: "test".to_string(),
        steps: vec![],
        risks: vec![],
        test_strategy: String::new(),
    };
    let issues = validate_plan(&plan);
    assert!(issues.iter().any(|i| i.contains("title")));
}

#[test]
fn test_validate_plan_circular_deps() {
    let plan = ImplementationPlan {
        title: "Test".to_string(),
        overview: "Test".to_string(),
        steps: vec![step(1, "A", vec![2]), step(2, "B", vec![1])],
        risks: vec![],
        test_strategy: String::new(),
    };
    let issues = validate_plan(&plan);
    assert!(issues.iter().any(|i| i.contains("Circular")));
}

#[test]
fn validate_plan_reports_in_order() {
    let plan = ImplementationPlan {
        title: String::new(),
        overview: String::new(),
        steps: vec![step(1, "", vec![7]), step(2, "ok", vec![1])],
        risks: vec![],
        test_strategy: String::new(),
    };
    assert_eq!(
        validate_plan(&plan),
        vec![
            "Plan title is empty",
            "Plan overview is empty",
            "Step 1 depends on non-existent step 7",
            "Step 1 has empty description",
        ]
    );
}

#[test]
fn test_format_messages() {
    let messages = vec![
        Message::system("system prompt"),
        Message::user("hello"),
        Message::assistant("hi there"),
    ];
    let formatted = format_messages(&messages);
    assert!(formatted.contains("User: hello"));
    assert!(formatted.contains("Assistant: hi there"));
    assert!(!formatted.contains("system prompt"));
    assert_eq!(formatted, "User: hello\nAssistant: hi there");
}

#[test]
fn nudges() {
    assert!(nudge_due(10, 5));
    assert!(!nudge_due(7, 5));
    assert_eq!(
        nudge_from_response("  NOTABLE:  uses tabs \n"),
        Some("I noticed some information worth remembering: uses tabs\nWould you like me to save this?".to_string())
    );
    assert_eq!(nudge_from_response("NOTHING: no"), None);
}

#[test]
fn test_parse_frontmatter() {
    let content = r#"---
name: test-skill
description: A test skill
version: 1
usage_count: 0
success_count: 0
---

# Test Skill

## When to use
- Testing

## Steps
1. Do something"#;

    let (name, desc) = parse_frontmatter(content).unwrap();
    assert_eq!(name, "test-skill");
    assert_eq!(desc, "A test skill");
    assert!(extract_body(content).starts_with("# Test Skill"));
    assert_eq!(extract_frontmatter_field(content, "version"), Some("1".to_string()));
    let s = skill_from_content("dir", content, "now");
    assert_eq!(s.name, "test-skill");
    assert_eq!(s.version, 1);
    assert_eq!(s.created_at, "now");
}

#[test]
fn test_parse_frontmatter_invalid() {
    assert!(parse_frontmatter("no frontmatter here").is_none());
    assert!(parse_frontmatter("---\nname: foo").is_none());
}

#[test]
fn test_extract_field_u32() {
    let content = "version: 3\nusage_count: 42\nsuccess_count: 7";
    assert_eq!(extract_field_u32(content, "version"), Some(3));
    assert_eq!(extract_field_u32(content, "usage_count"), Some(42));
    assert_eq!(extract_field_u32(content, "success_count"), Some(7));
    assert_eq!(extract_field_u32(content, "missing"), None);
    assert_eq!(extract_field_u32("n: +5", "n"), Some(5));
    assert_eq!(extract_field_u32("n: 4294967296", "n"), None);
    assert_eq!(extract_field_str("a: x y ", "a"), Some("x y".to_string()));
}

#[test]
fn skill_gate_and_custom_tool() {
    assert!(should_create_skill(5, "all good"));
    assert!(!should_create_skill(4, "all good"));
    assert!(!should_create_skill(9, "it failed"));
    let t = CustomSkillTool::from_skill_md("deploy", "---\ndescription: Ship it\n---\nRun make.").unwrap();
    assert_eq!(t.name(), "skill_deploy");
    assert_eq!(t.description(), "Ship it");
    assert_eq!(
        t.run("{\"task\": \"go\"}"),
        Ok("Skill 'skill_deploy' instructions:\n\nRun make.\n\nTask: go".to_string())
    );
    assert_eq!(t.run("{}"), Err("Missing 'task' argument".to_string()));
    let u = CustomSkillTool::from_skill_md("x", "body only").unwrap();
    assert_eq!(u.description(), "Custom skill: x");
}

#[test]
fn sessions_sorted_latest_first() {
    let mut a = Session::new_record("a", "agent", "2024-01-01T00:00:00Z");
    let b = Session::new_record("b", "agent", "2024-03-01T00:00:00Z");
    let c = Session::new_record("c", "agent", "2024-01-01T00:00:00Z");
    a.note_message("2024-02-01T00:00:00Z");
    assert_eq!(a.message_count, 1);
    let sorted = sort_by_recency(vec![a, b, c]);
    let ids: Vec<&str> = sorted.iter().map(|s| s.id.as_str()).collect();
    assert_eq!(ids, vec!["b", "a", "c"]);
}

#[test]
fn snapshot_outputs() {
    let numstat = "3\t1\tsrc/a.rs\n-\t-\timg.png\nbad line\n";
    let diff = "diff --git a/src/a.rs b/src/a.rs\n--- a/src/a.rs\n+++ b/src/a.rs\n@@ -1 +1 @@\n-x\n+y\n";
    let name_status = "M\tsrc/a.rs\nA\timg.png\n";
    let d = parse_diff_full(numstat, diff, name_status);
    assert_eq!(d.len(), 2);
    assert_eq!(d[0].file, "src/a.rs");
    assert_eq!(d[0].additions, 3);
    assert_eq!(d[0].deletions, 1);
    assert_eq!(d[0].status, Some(SnapshotDiffStatus::Modified));
    assert!(d[0].patch.starts_with("diff --git"));
    assert!(d[0].patch.contains("+y\n"));
    assert_eq!(d[1].additions, 0);
    assert_eq!(d[1].patch, "");
    assert_eq!(d[1].status, Some(SnapshotDiffStatus::Added));

    assert_eq!(parse_name_list("a\n\nb\n"), vec!["a", "b"]);
    assert_eq!(
        parse_log_oneline("abc first snap\nnospace\n"),
        vec![("abc".to_string(), "first snap".to_string())]
    );
    let hashes = vec!["h1".to_string(), "h2".to_string(), "h3".to_string()];
    assert_eq!(oldest_to_drop(&hashes, 2), Some(&"h3".to_string()));
    assert_eq!(oldest_to_drop(&hashes, 3), None);
}

#[test]
fn bump_counter_counts_up_each_occurrence() {
    let md = "---\nname: x\nusage_count: 3\nsuccess_count: 1\n---\nusage_count: 3 noted";
    let once = coding_agent::skills::bump_counter(md, "usage_count");
    assert_eq!(once, "---\nname: x\nusage_count: 4\nsuccess_count: 1\n---\nusage_count: 4 noted");
    let twice = coding_agent::skills::bump_counter(&once, "success_count");
    assert!(twice.contains("success_count: 2"));
    assert_eq!(coding_agent::skills::bump_counter("no counters", "usage_count"), "no counters");
}

#[test]
fn tool_calls_are_counted_over_messages() {
    let calls = vec![ToolCall::new("1", "ls", "{}"), ToolCall::new("2", "grep", "{\"pattern\":\"a\"}")];
    let msgs = vec![
        Message::user("hi"),
        Message::assistant_with_tool_calls(calls),
        Message::tool_result("1", "out"),
    ];
    assert_eq!(coding_agent::skills::tool_call_count(&msgs), 2);
    assert_eq!(
        coding_agent::skills::conversation_for_skill(&msgs),
        "[user]: hi\n[assistant]: \n  -> tool_call: ls({})\n  -> tool_call: grep({\"pattern\":\"a\"})\n[tool]: out"
    );
}

#[test]
fn replace_all_replaces_without_overlap() {
    assert_eq!(coding_agent::text::replace_all_exec("aaaa", "aa", "b"), "bb");
    assert_eq!(coding_agent::text::replace_all_exec("abc", "x", "y"), "abc");
}

#[test]
fn plan_steps_are_described_for_decomposition() {
    let plan = ImplementationPlan {
        title: "T".to_string(),
        overview: "O".to_string(),
        steps: vec![
            PlanStep { id: 1, title: "a".to_string(), description: "do a".to_string(), files_to_modify: vec!["x.rs".to_string(), "y.rs".to_string()], estimated_minutes: 5, dependencies: vec![] },
            PlanStep { id: 2, title: "b".to_string(), description: "do b".to_string(), files_to_modify: vec![], estimated_minutes: 5, dependencies: vec![1, 3] },
        ],
        risks: vec![],
        test_strategy: String::new(),
    };
    assert_eq!(
        coding_agent::planner::steps_summary(&plan),
        "Step 1: a - do a (files: x.rs, y.rs, deps: [])\nStep 2: b - do b (files: , deps: [1, 3])"
    );
}

#[test]
fn adding_a_hook_changes_only_its_event() {
    let mut exec = HookExecutor::new();
    exec.add_hook(HookConfig { event: HookEvent::PreToolUse, command: "a".to_string(), ..HookConfig::default() });
    exec.add_hook(HookConfig { event: HookEvent::Stop, command: "s".to_string(), ..HookConfig::default() });
    let stop_before: Vec<String> = exec.hooks_for(&HookEvent::Stop).into_iter().map(|h| h.command).collect();
    exec.add_hook(HookConfig { event: HookEvent::PreToolUse, command: "b".to_string(), ..HookConfig::default() });
    let pre: Vec<String> = exec.hooks_for(&HookEvent::PreToolUse).into_iter().map(|h| h.command).collect();
    let stop_after: Vec<String> = exec.hooks_for(&HookEvent::Stop).into_iter().map(|h| h.command).collect();
    assert_eq!(pre, vec!["a".to_string(), "b".to_string()]);
    assert_eq!(stop_before, stop_after);
}

#[test]
fn changed_paths_keep_their_extensions() {
    let out = "Successfully written to src/main.rs\nunrelated\nSuccessfully edited lib/a.rs";
    let changes = FileDiff::extract_changes(out);
    assert_eq!(changes.len(), 2);
    assert_eq!(changes[0].path, "src/main.rs");
    assert_eq!(changes[0].change_type, ChangeType::Added);
    assert!(changes[0].diff.is_none());
    assert_eq!(changes[1].path, "lib/a.rs");
    assert_eq!(changes[1].change_type, ChangeType::Modified);
    assert_eq!(FileDiff::extract_path_from_success("Successfully edited a..b."), Some("a..b".to_string()));
    assert_eq!(FileDiff::extract_path_from_success("Deleted file: ."), None);
}
