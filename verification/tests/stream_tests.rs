use coding_agent::engine::{answer_to_message, triage_calls};
use coding_agent::memory::{extract_memories, extract_memories_checked};
use coding_agent::message::{Message, Role, ToolCall};
use coding_agent::permissions::{PermissionManager, PermissionMode};
use coding_agent::project_instructions::ProjectInstructions;
use coding_agent::stream::{response_to_events, ChatResponse, SseDecoder, StreamEvent};

fn token(e: &StreamEvent) -> Option<&str> {
    match e {
        StreamEvent::Token(t) => Some(t.as_str()),
        _ => None,
    }
}

#[test]
fn decoder_gives_text_of_complete_lines() {
    let mut d = SseDecoder::new();
    let evs = d.push_chunk("data: {\"choices\":[{\"delta\":{\"content\":\"Hel").unwrap();
    assert!(evs.is_empty());
    let evs = d.push_chunk("lo\"}}]}\n\n").unwrap();
    assert_eq!(evs.len(), 1);
    assert_eq!(token(&evs[0]), Some("Hello"));
    assert!(!d.is_finished());
}

#[test]
fn decoder_skips_comments_and_bad_json() {
    let mut d = SseDecoder::new();
    let evs = d.push_chunk(": keep-alive\nevent: x\ndata: not json\n").unwrap();
    assert!(evs.is_empty());
}

#[test]
fn decoder_assembles_tool_call_until_done() {
    let mut d = SseDecoder::new();
    let first = "data: {\"choices\":[{\"delta\":{\"tool_calls\":[{\"index\":0,\"id\":\"call_1\",\"function\":{\"name\":\"grep\",\"arguments\":\"\"}}]}}]}\n";
    let evs = d.push_chunk(first).unwrap();
    assert_eq!(evs.len(), 1);
    match &evs[0] {
        StreamEvent::ToolCallStart { id, name } => {
            assert_eq!(id, "call_1");
            assert_eq!(name, "grep");
        }
        other => panic!("unexpected event {:?}", other),
    }
    let second = "data: {\"choices\":[{\"delta\":{\"tool_calls\":[{\"index\":0,\"function\":{\"arguments\":\"{\\\"pattern\\\": \\\"fn\\\"}\"}}]}}]}\n";
    let evs = d.push_chunk(second).unwrap();
    assert_eq!(evs.len(), 1);
    match &evs[0] {
        StreamEvent::ToolCallDelta { id, arguments_delta } => {
            assert_eq!(id, "call_1");
            assert_eq!(arguments_delta, "{\"pattern\": \"fn\"}");
        }
        other => panic!("unexpected event {:?}", other),
    }
    let evs = d.push_chunk("data: [DONE]\n").unwrap();
    assert_eq!(evs.len(), 2);
    match &evs[0] {
        StreamEvent::ToolCallEnd { id, name, arguments } => {
            assert_eq!(id, "call_1");
            assert_eq!(name, "grep");
            assert_eq!(arguments, "{\"pattern\":\"fn\"}");
        }
        other => panic!("unexpected event {:?}", other),
    }
    assert!(matches!(evs[1], StreamEvent::Done));
    assert!(d.is_finished());
    assert!(d.finish().is_empty());
}

#[test]
fn decoder_finish_closes_open_calls() {
    let mut d = SseDecoder::new();
    let chunk = "data: {\"choices\":[{\"delta\":{\"tool_calls\":[{\"index\":0,\"id\":\"c\",\"function\":{\"name\":\"ls\",\"arguments\":\"oops\"}}]}}]}\n";
    let evs = d.push_chunk(chunk).unwrap();
    assert_eq!(evs.len(), 2);
    let evs = d.finish();
    assert_eq!(evs.len(), 2);
    match &evs[0] {
        StreamEvent::ToolCallEnd { arguments, .. } => assert_eq!(arguments, "{}"),
        other => panic!("unexpected event {:?}", other),
    }
    assert!(matches!(evs[1], StreamEvent::Done));
    assert!(d.is_finished());
}

#[test]
fn whole_answer_as_events() {
    let evs = response_to_events(ChatResponse::Text("hi".to_string()));
    assert_eq!(evs.len(), 2);
    assert_eq!(token(&evs[0]), Some("hi"));
    let calls = vec![ToolCall::new("1", "ls", "{}"), ToolCall::new("2", "grep", "{\"pattern\":\"x\"}")];
    let evs = response_to_events(ChatResponse::ToolCall(calls));
    assert_eq!(evs.len(), 5);
    assert!(matches!(&evs[2], StreamEvent::ToolCallStart { id, .. } if id == "2"));
    assert!(matches!(evs[4], StreamEvent::Done));
}

#[test]
fn test_extract_memories_preference() {
    let messages = vec![
        Message::user("I prefer using pnpm over npm"),
        Message::assistant("Understood, noted."),
        Message::user("What's the weather?"),
    ];
    let memories = extract_memories(&messages);
    assert_eq!(memories.len(), 1);
    assert!(memories[0].contains("pnpm"));
}

#[test]
fn test_extract_memories_project_knowledge() {
    let messages = vec![Message::user("This project uses Rust and PostgreSQL")];
    let memories = extract_memories(&messages);
    assert_eq!(memories.len(), 1);
}

#[test]
fn test_extract_memories_error() {
    let messages = vec![Message::user("That command will fail because permissions are denied")];
    let memories = extract_memories(&messages);
    assert_eq!(memories.len(), 1);
}

#[test]
fn memories_need_whole_words_and_skip_system() {
    let messages = vec![
        Message::system("I prefer nothing"),
        Message::user("the debugger is fine"),
        Message::user("no bug here"),
    ];
    let memories = extract_memories(&messages);
    assert_eq!(memories, vec!["no bug here".to_string()]);
    let broken = vec![Message::user("a我用b")];
    assert!(extract_memories_checked(&broken).is_none());
}

fn level(a: Option<&str>, c: Option<&str>, r: Option<&str>) -> (Option<String>, Option<String>, Option<String>) {
    (a.map(String::from), c.map(String::from), r.map(String::from))
}

#[test]
fn instructions_prefer_agents_md_over_the_fallback() {
    let levels = vec![level(Some("agents content"), Some("fallback content"), None)];
    let r = ProjectInstructions::assemble(None, &vec![], &levels).unwrap();
    assert!(r.contains("agents content"));
    assert!(!r.contains("fallback content"));
}

#[test]
fn instructions_merge_rules_up_to_the_project_root() {
    let levels = vec![
        level(None, None, Some("mid rules")),
        level(Some("project root"), None, Some("root rules")),
        level(Some("too far"), None, Some("far rules")),
    ];
    let r = ProjectInstructions::assemble(Some("global".to_string()), &vec!["   ".to_string(), "rule a".to_string()], &levels).unwrap();
    assert_eq!(r, "global\n\nrule a\n\nproject root\n\nmid rules\n\nroot rules");
}

#[test]
fn instructions_none_when_nothing_counts() {
    let levels = vec![level(Some("  \n"), None, None), level(None, Some(""), None)];
    assert!(ProjectInstructions::assemble(None, &vec![], &levels).is_none());
    let levels = vec![level(None, None, None); 7];
    assert!(ProjectInstructions::assemble(Some("\t".to_string()), &vec![], &levels).is_none());
}

#[test]
fn instructions_search_only_five_levels() {
    let mut levels = vec![level(None, None, None); 5];
    levels.push(level(Some("sixth"), None, None));
    assert!(ProjectInstructions::assemble(None, &vec![], &levels).is_none());
    levels[4] = level(None, Some("fallback at fifth"), None);
    assert_eq!(ProjectInstructions::assemble(None, &vec![], &levels).unwrap(), "fallback at fifth");
}

#[test]
fn step_answer_becomes_message() {
    assert!(answer_to_message("", vec![]).is_none());
    let m = answer_to_message("done", vec![]).unwrap();
    assert_eq!(m.role, Role::Assistant);
    assert_eq!(m.content, "done");
    assert!(m.tool_calls.is_none());
    let m = answer_to_message("", vec![ToolCall::new("1", "ls", "{}")]).unwrap();
    assert_eq!(m.tool_calls.unwrap().len(), 1);
}

#[test]
fn refused_calls_get_a_denial_result() {
    let pm = PermissionManager::new(PermissionMode::Plan);
    let calls = vec![
        ToolCall::new("1", "file_read", "{\"path\":\"a\"}"),
        ToolCall::new("2", "shell", "{\"command\":\"ls\"}"),
    ];
    let (run, denied) = triage_calls(&pm, &calls);
    assert_eq!(run.len(), 1);
    assert_eq!(run[0].id, "1");
    assert_eq!(denied.len(), 1);
    assert_eq!(denied[0].role, Role::Tool);
    assert_eq!(denied[0].tool_call_id.as_deref(), Some("2"));
    assert_eq!(denied[0].content, "Permission denied: Plan mode: read-only, no modifications allowed");
    let pm = PermissionManager::new(PermissionMode::Default);
    let danger = vec![ToolCall::new("3", "shell", "{\"command\":\"rm -rf /\"}"), ToolCall::new("4", "shell", "{\"command\":\"ls\"}")];
    let (run, denied) = triage_calls(&pm, &danger);
    assert_eq!(run.len(), 1);
    assert_eq!(run[0].id, "4");
    assert_eq!(denied[0].content, "Permission denied: Dangerous: recursive delete from root");
}

#[test]
fn chunking_does_not_change_decoded_events() {
    let whole = "data: {\"choices\":[{\"delta\":{\"content\":\"Hel\"}}]}\n\ndata: {\"choices\":[{\"delta\":{\"content\":\"lo\"}}]}\ndata: [DONE]\n";
    let mut one = coding_agent::stream::SseDecoder::new();
    let all_at_once = format!("{:?}", one.push_chunk(whole).unwrap());
    for cut in [1usize, 10, 40, 60, 70, whole.len() - 1] {
        let mut d = coding_agent::stream::SseDecoder::new();
        let mut evs = d.push_chunk(&whole[..cut]).unwrap();
        evs.extend(d.push_chunk(&whole[cut..]).unwrap());
        assert_eq!(format!("{:?}", evs), all_at_once, "cut at {}", cut);
    }
    assert!(all_at_once.contains("Token(\"Hel\")"));
    assert!(all_at_once.contains("Done"));
}
