use coding_agent::context::{sanitize_messages, ContextManager, ContextStatus, OverflowLevel};
use coding_agent::engine::{truncate_tool_output, TurnState};
use coding_agent::message::{Message, Role, ToolCall};

#[test]
fn test_truncate_short_output() {
    let output = "short";
    let result = truncate_tool_output(output, 100);
    assert_eq!(result, "short");
}

#[test]
fn test_truncate_long_output() {
    let output = "a".repeat(50000);
    let result = truncate_tool_output(&output, 32 * 1024);
    assert!(result.len() < 50000);
    assert!(result.contains("truncated"));
}

#[test]
fn test_truncate_exact_boundary() {
    let output = "a".repeat(32 * 1024);
    let result = truncate_tool_output(&output, 32 * 1024);
    assert_eq!(result, output);
}

#[test]
fn test_truncate_utf8_boundary() {
    let output = "你好世界".repeat(20000);
    let result = truncate_tool_output(&output, 32 * 1024);
    assert!(result.len() <= 32 * 1024 + 100);
    assert!(result.contains("truncated"));
}

#[test]
fn truncate_notes_original_size() {
    let result = truncate_tool_output("abcdef", 4);
    assert_eq!(result, "abcd\n[...truncated from 6 bytes]");
}

#[test]
fn doom_loop_after_three_identical_calls() {
    let mut t = TurnState::new();
    assert!(!t.record("shell", "h1", 10));
    assert!(!t.record("shell", "h1", 10));
    assert!(t.record("shell", "h1", 10));
    let mut u = TurnState::new();
    assert!(!u.record("shell", "h1", 10));
    assert!(!u.record("shell", "h2", 10));
    assert!(!u.record("shell", "h1", 10));
}

#[test]
fn test_estimate_tokens() {
    let cm = ContextManager::new(10000);
    let messages = vec![
        Message::system("You are a helpful assistant"),
        Message::user("Hello, how are you?"),
        Message::assistant("I'm doing well, thanks!"),
    ];
    let tokens = cm.estimate_tokens(&messages);
    assert!(tokens > 0);
}

#[test]
fn test_estimate_text_tokens_chinese() {
    let tokens = ContextManager::estimate_text_tokens("你好世界");
    assert!(tokens > 0);
    assert_eq!(tokens, 6);
}

#[test]
fn test_estimate_text_tokens_english() {
    let tokens = ContextManager::estimate_text_tokens("hello");
    assert_eq!(tokens, 1);
}

#[test]
fn test_estimate_text_tokens_mixed() {
    let tokens = ContextManager::estimate_text_tokens("hello你好");
    assert!(tokens > 1);
}

#[test]
fn test_needs_compaction() {
    let cm = ContextManager::new(100).with_threshold(50);
    let short = vec![Message::user("hi")];
    assert!(!cm.needs_compaction(&short));

    let long_content = "x".repeat(300);
    let long = vec![Message::user(&long_content)];
    assert!(cm.needs_compaction(&long));
}

#[test]
fn test_compact_preserves_system_and_recent() {
    let cm = ContextManager::new(10000);
    let messages = vec![
        Message::system("system prompt"),
        Message::user("q1"),
        Message::assistant("a1"),
        Message::user("q2"),
        Message::assistant("a2"),
        Message::user("q3"),
        Message::assistant("a3"),
    ];
    let result = cm.compact(&messages, "summary of old chat");

    assert_eq!(result[0].role, Role::System);
    assert_eq!(result[0].content, "system prompt");
    assert!(result[1].content.contains("summary of old chat"));
    assert_eq!(result.last().unwrap().content, "a3");
}

#[test]
fn test_smart_compact_with_summary() {
    let cm = ContextManager::new(10000).with_keep_recent(2);
    let messages = vec![
        Message::system("system prompt"),
        Message::user("q1"),
        Message::assistant("a1"),
        Message::user("q2"),
        Message::assistant("a2"),
        Message::user("q3"),
        Message::assistant("a3"),
    ];
    let result = cm.smart_compact(&messages, "custom summary");

    assert_eq!(result[0].role, Role::System);
    assert_eq!(result[0].content, "system prompt");
    assert!(result[1].content.contains("custom summary"));
    assert_eq!(result[2].content, "q3");
    assert_eq!(result[3].content, "a3");
}

#[test]
fn test_smart_compact_generates_summary() {
    let cm = ContextManager::new(10000).with_keep_recent(2);
    let messages = vec![
        Message::system("system prompt"),
        Message::user("What is Rust?"),
        Message::assistant("Rust is a systems language."),
        Message::user("How to compile?"),
        Message::assistant("Use cargo build."),
        Message::user("q3"),
        Message::assistant("a3"),
    ];
    let result = cm.smart_compact(&messages, "");

    assert_eq!(result[0].role, Role::System);
    assert!(result[1].content.contains("User asked: What is Rust?"));
    assert_eq!(result[2].content, "q3");
    assert_eq!(result[3].content, "a3");
}

#[test]
fn test_truncate_message() {
    let cm = ContextManager::new(10000);
    let msg = Message::user("line1\nline2\nline3\nline4\nline5");
    let truncated = cm.truncate_message(&msg, 3);
    assert!(truncated.content.contains("line1"));
    assert!(truncated.content.contains("line3"));
    assert!(truncated.content.contains("truncated 2 lines"));
    assert!(!truncated.content.contains("line4"));
}

#[test]
fn test_overflow_level_normal() {
    let cm = ContextManager::new(10000);
    let messages = vec![Message::user("hi")];
    assert_eq!(cm.check_overflow(&messages), OverflowLevel::Normal);
}

#[test]
fn test_overflow_level_warning() {
    let cm = ContextManager::new(1000);
    let content = "x".repeat(3600);
    let messages = vec![Message::user(&content)];
    assert_eq!(cm.check_overflow(&messages), OverflowLevel::Warning);
}

#[test]
fn test_overflow_level_critical() {
    let cm = ContextManager::new(1000);
    let content = "x".repeat(4000);
    let messages = vec![Message::user(&content)];
    assert_eq!(cm.check_overflow(&messages), OverflowLevel::Critical);
}

#[test]
fn test_context_status() {
    let cm = ContextManager::new(10000);
    let messages = vec![Message::user("hi")];
    assert_eq!(cm.get_status(&messages), ContextStatus::Normal);

    let cm = ContextManager::new(1000);
    let content = "x".repeat(3600);
    let messages = vec![Message::user(&content)];
    assert_eq!(cm.get_status(&messages), ContextStatus::Warning);

    let content = "x".repeat(4000);
    let messages = vec![Message::user(&content)];
    assert_eq!(cm.get_status(&messages), ContextStatus::Critical);
}

#[test]
fn test_smart_compact_enhanced() {
    let cm = ContextManager::new(10000);
    let messages = vec![
        Message::system("system prompt"),
        Message::user("q1"),
        Message::assistant("a1"),
        Message::user("q2"),
        Message::assistant("a2"),
        Message::user("q3"),
        Message::assistant("a3"),
    ];
    let result = cm.smart_compact_enhanced(&messages, "custom summary");

    assert_eq!(result[0].role, Role::System);
    assert_eq!(result[0].content, "system prompt");
    assert!(result[1].content.contains("custom summary"));
    assert_eq!(result.last().unwrap().content, "a3");
}

#[test]
fn test_sanitize_removes_orphaned_tool_result() {
    let messages = vec![
        Message::user("test"),
        Message {
            role: Role::Assistant,
            content: "let me check".to_string(),
            tool_calls: Some(vec![
                ToolCall::new("tc1", "file_read", "{}"),
                ToolCall::new("tc2", "grep", "{}"),
            ]),
            tool_call_id: None,
        },
        Message::tool_result("tc1", "file content"),
    ];

    let result = sanitize_messages(messages);
    assert_eq!(result.len(), 3);
}

#[test]
fn test_sanitize_removes_orphaned_tool_messages() {
    let messages = vec![
        Message::system("system"),
        Message::tool_result("orphan_tc_id", "some output"),
        Message::user("next question"),
    ];

    let result = sanitize_messages(messages);
    assert_eq!(result.len(), 2);
    assert_eq!(result[0].role, Role::System);
    assert_eq!(result[1].role, Role::User);
}

#[test]
fn test_sanitize_preserves_valid_sequence() {
    let messages = vec![
        Message::user("test"),
        Message {
            role: Role::Assistant,
            content: "checking".to_string(),
            tool_calls: Some(vec![ToolCall::new("tc1", "file_read", "{}")]),
            tool_call_id: None,
        },
        Message::tool_result("tc1", "content"),
        Message::assistant("done"),
    ];

    let result = sanitize_messages(messages);
    assert_eq!(result.len(), 4);
}

#[test]
fn test_compact_no_orphaned_messages() {
    let cm = ContextManager::new(10000).with_keep_recent(2);
    let messages = vec![
        Message::system("system"),
        Message::user("q1"),
        Message {
            role: Role::Assistant,
            content: "checking".to_string(),
            tool_calls: Some(vec![ToolCall::new("tc1", "file_read", "{}")]),
            tool_call_id: None,
        },
        Message::tool_result("tc1", "file content here"),
        Message::user("q2"),
        Message::assistant("answer"),
        Message::user("q3"),
        Message::assistant("answer3"),
    ];

    let result = cm.compact(&messages, "summary");
    for msg in &result {
        if msg.role == Role::Tool {
            let has_matching_assistant = result.iter().any(|m| {
                m.role == Role::Assistant
                    && m.tool_calls.as_ref().map_or(false, |tcs| {
                        tcs.iter().any(|tc| Some(&tc.id) == msg.tool_call_id.as_ref())
                    })
            });
            assert!(has_matching_assistant, "orphaned tool result found: {:?}", msg.tool_call_id);
        }
    }
}
