use coding_agent::planner::{brainstorm_from_reply, plan_from_reply, subtasks_from_reply};

#[test]
fn brainstorm_reply_lists_string_items() {
    let reply = "Sure! {\"questions\": [\"Why?\", 3, \"How?\"], \"suggestions\": \"none\"} Hope it helps.";
    let b = brainstorm_from_reply(reply).unwrap();
    assert_eq!(b.questions, vec!["Why?".to_string(), "How?".to_string()]);
    assert!(b.suggestions.is_empty());
    assert!(b.alternatives.is_empty());
}

#[test]
fn brainstorm_reply_that_is_not_json_fails() {
    assert!(brainstorm_from_reply("{not json}").is_none());
    assert!(brainstorm_from_reply("no object at all").is_none());
}

#[test]
fn plan_reply_keeps_complete_steps() {
    let reply = r#"Here: {"overview": "o", "steps": [
        {"id": 1, "title": "a", "description": "d", "estimated_minutes": 5,
         "files_to_modify": ["x.rs", 1], "dependencies": [2, "3", 4]},
        {"id": 2, "title": "missing description", "estimated_minutes": 1},
        {"id": 3, "title": "c", "description": "e", "estimated_minutes": 7}
    ], "risks": ["r1"]}"#;
    let p = plan_from_reply(reply).unwrap();
    assert_eq!(p.title, "Untitled Plan");
    assert_eq!(p.overview, "o");
    assert_eq!(p.test_strategy, "");
    assert_eq!(p.risks, vec!["r1".to_string()]);
    assert_eq!(p.steps.len(), 2);
    assert_eq!(p.steps[0].id, 1);
    assert_eq!(p.steps[0].files_to_modify, vec!["x.rs".to_string()]);
    assert_eq!(p.steps[0].dependencies, vec![2, 4]);
    assert_eq!(p.steps[0].estimated_minutes, 5);
    assert_eq!(p.steps[1].id, 3);
    assert!(p.steps[1].dependencies.is_empty());
}

#[test]
fn plan_reply_with_title_and_no_steps() {
    let p = plan_from_reply("{\"title\": \"T\", \"test_strategy\": \"unit\"}").unwrap();
    assert_eq!(p.title, "T");
    assert_eq!(p.test_strategy, "unit");
    assert!(p.steps.is_empty());
    assert!(plan_from_reply("{oops").is_none());
}

#[test]
fn subtask_reply_needs_title_and_prompt() {
    let reply = r#"Tasks: [{"title": "t1", "prompt": "p1", "context": "c"}, {"title": "no prompt"}, {"title": "t3", "prompt": "p3", "verification": "v"}]"#;
    let ts = subtasks_from_reply(reply).unwrap();
    assert_eq!(ts.len(), 2);
    assert_eq!(ts[0].title, "t1");
    assert_eq!(ts[0].context, "c");
    assert_eq!(ts[0].verification, "");
    assert_eq!(ts[1].prompt, "p3");
    assert_eq!(ts[1].context, "");
    assert_eq!(ts[1].verification, "v");
}

#[test]
fn subtask_reply_without_array() {
    assert_eq!(subtasks_from_reply("nothing").unwrap().len(), 0);
    assert!(subtasks_from_reply("[1, oops]").is_none());
}
