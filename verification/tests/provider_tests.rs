use coding_agent::engine::{LoopAction, LoopEvent, TurnState};
use coding_agent::provider::{backoff, chat_response_from_body, retry_action, AttemptOutcome, RetryAction};
use coding_agent::stream::{ChatResponse, SseDecoder, StreamEvent};
use coding_agent::tool_executor::compute_arguments_hash;

#[test]
fn success_proceeds() {
    assert_eq!(retry_action(0, AttemptOutcome::Success), RetryAction::Proceed);
    assert_eq!(retry_action(9, AttemptOutcome::Success), RetryAction::Proceed);
}

#[test]
fn authentication_errors_fail_at_once() {
    assert_eq!(retry_action(0, AttemptOutcome::Status(401)), RetryAction::Fail);
    assert_eq!(retry_action(0, AttemptOutcome::Status(403)), RetryAction::Fail);
}

#[test]
fn other_client_errors_fail() {
    assert_eq!(retry_action(0, AttemptOutcome::Status(400)), RetryAction::Fail);
    assert_eq!(retry_action(3, AttemptOutcome::Status(404)), RetryAction::Fail);
}

#[test]
fn transient_errors_back_off_exponentially() {
    assert_eq!(retry_action(0, AttemptOutcome::Status(500)), RetryAction::RetryAfterMs(1000));
    assert_eq!(retry_action(1, AttemptOutcome::Status(429)), RetryAction::RetryAfterMs(2000));
    assert_eq!(retry_action(2, AttemptOutcome::RequestFailed), RetryAction::RetryAfterMs(4000));
    assert_eq!(retry_action(4, AttemptOutcome::Status(503)), RetryAction::RetryAfterMs(16000));
    assert_eq!(retry_action(5, AttemptOutcome::Status(502)), RetryAction::RetryAfterMs(30000));
    assert_eq!(retry_action(8, AttemptOutcome::RequestFailed), RetryAction::RetryAfterMs(30000));
}

#[test]
fn tenth_attempt_is_the_last() {
    assert_eq!(retry_action(9, AttemptOutcome::Status(500)), RetryAction::Fail);
    assert_eq!(retry_action(9, AttemptOutcome::RequestFailed), RetryAction::Fail);
}

#[test]
fn backoff_is_capped() {
    assert_eq!(backoff(0), 1000);
    assert_eq!(backoff(3), 8000);
    assert_eq!(backoff(40), 30000);
    assert_eq!(backoff(u32::MAX), 30000);
}

#[test]
fn complete_answer_with_text() {
    let body = r#"{"choices":[{"message":{"content":"Hello"}}]}"#;
    match chat_response_from_body(body) {
        Ok(ChatResponse::Text(t)) => assert_eq!(t, "Hello"),
        _ => panic!("expected text"),
    }
}

#[test]
fn complete_answer_without_content_is_empty_text() {
    let body = r#"{"choices":[{"message":{}}]}"#;
    match chat_response_from_body(body) {
        Ok(ChatResponse::Text(t)) => assert_eq!(t, ""),
        _ => panic!("expected text"),
    }
}

#[test]
fn complete_answer_with_tool_calls() {
    let body = r#"{"choices":[{"message":{"tool_calls":[
        {"id":"c1","function":{"name":"file_read","arguments":"{\"path\": \"a.rs\"}"}},
        {"function":{"name":"ls"}},
        {"id":"c3","function":{"name":"x","arguments":"not json"}}
    ]}}]}"#;
    match chat_response_from_body(body) {
        Ok(ChatResponse::ToolCall(calls)) => {
            assert_eq!(calls.len(), 3);
            assert_eq!(calls[0].id, "c1");
            assert_eq!(calls[0].name, "file_read");
            assert_eq!(calls[0].arguments, r#"{"path":"a.rs"}"#);
            assert_eq!(calls[1].id, "");
            assert_eq!(calls[1].arguments, "{}");
            assert_eq!(calls[2].arguments, "null");
        }
        _ => panic!("expected tool calls"),
    }
}

#[test]
fn answer_that_is_not_json_is_an_error() {
    assert_eq!(
        chat_response_from_body("oops").err(),
        Some("Failed to parse LLM response as JSON".to_string())
    );
}

#[test]
fn answer_without_choices_is_an_error() {
    assert_eq!(chat_response_from_body(r#"{"choices":[]}"#).err(), Some("No choices in response".to_string()));
    assert_eq!(chat_response_from_body(r#"{"id":"x"}"#).err(), Some("No choices in response".to_string()));
}

#[test]
fn streamed_piece_without_index_goes_to_the_first_call() {
    let mut d = SseDecoder::new();
    let mut evs = d
        .push_chunk("data: {\"choices\":[{\"delta\":{\"tool_calls\":[{\"id\":\"a\",\"function\":{\"name\":\"ls\",\"arguments\":\"{\\\"p\\\":1}\"}}]}}]}\n")
        .unwrap();
    evs.extend(d.push_chunk("data: [DONE]\n").unwrap());
    let ends: Vec<_> = evs
        .iter()
        .filter_map(|e| match e {
            StreamEvent::ToolCallEnd { id, name, arguments } => Some((id.clone(), name.clone(), arguments.clone())),
            _ => None,
        })
        .collect();
    assert_eq!(ends, vec![("a".to_string(), "ls".to_string(), "{\"p\":1}".to_string())]);
}

#[test]
fn streamed_arguments_that_are_not_json_become_an_empty_object() {
    let mut d = SseDecoder::new();
    let mut evs = d
        .push_chunk("data: {\"choices\":[{\"delta\":{\"tool_calls\":[{\"index\":0,\"id\":\"a\",\"function\":{\"name\":\"ls\",\"arguments\":\"{oops\"}}]}}]}\n")
        .unwrap();
    evs.extend(d.push_chunk("data: [DONE]\n").unwrap());
    assert!(evs.iter().any(|e| matches!(e, StreamEvent::ToolCallEnd { arguments, .. } if arguments == "{}")));
}

#[test]
fn hash_of_text_that_is_not_json_is_that_of_an_empty_object() {
    assert_eq!(compute_arguments_hash("not json"), compute_arguments_hash("{}"));
    assert_ne!(compute_arguments_hash("{\"a\":1}"), compute_arguments_hash("{}"));
    assert_eq!(compute_arguments_hash("{ \"a\" : 1 }"), compute_arguments_hash("{\"a\":1}"));
}

#[test]
fn agent_loop_decisions() {
    let mut t = TurnState::new();
    assert_eq!(t.next_action(LoopEvent::Iterate { iteration: 0, max_iterations: 3 }), LoopAction::Measure);
    assert_eq!(t.next_action(LoopEvent::Iterate { iteration: 3, max_iterations: 3 }), LoopAction::Finish);
    assert_eq!(t.next_action(LoopEvent::Measured { needs_compaction: true }), LoopAction::Compact);
    assert_eq!(t.next_action(LoopEvent::Measured { needs_compaction: false }), LoopAction::Check);
    assert_eq!(t.next_action(LoopEvent::Checked { critical: true }), LoopAction::Overflow);
    assert_eq!(t.next_action(LoopEvent::Checked { critical: false }), LoopAction::CallModel);
    assert_eq!(t.next_action(LoopEvent::Answered { tool_calls: 0 }), LoopAction::Finish);
    assert_eq!(t.next_action(LoopEvent::Answered { tool_calls: 2 }), LoopAction::RunTools);
    assert_eq!(t.next_action(LoopEvent::Recorded { doom: false }), LoopAction::NextResult);
    assert_eq!(t.next_action(LoopEvent::Recorded { doom: true }), LoopAction::StopDoomLoop);
    t.record("file_read", "h", 204_801);
    assert_eq!(t.next_action(LoopEvent::Iterate { iteration: 1, max_iterations: 3 }), LoopAction::ForceCompact);
    t.reset_bytes();
    assert_eq!(t.next_action(LoopEvent::Iterate { iteration: 1, max_iterations: 3 }), LoopAction::Measure);
}
