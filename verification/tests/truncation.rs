use consensus::conversation::{message_shape, truncate_history, MessageShape};
use serde_json::Value;

fn json(text: &str) -> Value {
    serde_json::from_str(text).unwrap()
}

fn short_history() -> Vec<Value> {
    vec![json(r#"{"role": "user", "content": "hello"}"#), json(r#"{"role": "assistant", "content": "hi"}"#)]
}

fn long_history() -> Vec<Value> {
    (0..10)
        .flat_map(|i| {
            vec![
                json(&format!(r#"{{"role": "user", "content": "msg {i}"}}"#)),
                json(&format!(r#"{{"role": "assistant", "content": "reply {i}"}}"#)),
            ]
        })
        .collect()
}

fn tool_pair_history() -> Vec<Value> {
    vec![
        json(r#"{"role": "user", "content": "start"}"#),
        json(r#"{"role": "assistant", "content": "noted"}"#),
        json(r#"{"role": "assistant", "tool_calls": [{"id": "c1", "type": "function", "function": {"name": "overview", "arguments": "{}"}}]}"#),
        json(r#"{"role": "tool", "tool_call_id": "c1", "content": "{}"}"#),
        json(r#"{"role": "user", "content": "ok"}"#),
        json(r#"{"role": "assistant", "content": "done"}"#),
    ]
}

fn tool_result_history() -> Vec<Value> {
    vec![
        json(r#"{"role": "user", "content": "a"}"#),
        json(r#"{"role": "assistant", "tool_calls": [{"id": "c1", "type": "function", "function": {"name": "f", "arguments": "{}"}}]}"#),
        json(r#"{"role": "tool", "tool_call_id": "c1", "content": "r"}"#),
        json(r#"{"role": "assistant", "content": "b"}"#),
        json(r#"{"role": "user", "content": "c"}"#),
    ]
}

fn only_tool_results() -> Vec<Value> {
    vec![
        json(r#"{"role": "tool", "tool_call_id": "c1", "content": "r1"}"#),
        json(r#"{"role": "tool", "tool_call_id": "c2", "content": "r2"}"#),
        json(r#"{"role": "tool", "tool_call_id": "c3", "content": "r3"}"#),
    ]
}

#[test]
fn conversation_truncate_history_noop_when_under_limit() {
    let history = short_history();
    assert_eq!(truncate_history(&history, 5), history);
}

#[test]
fn conversation_truncate_history_drops_oldest_messages() {
    let history = long_history();
    let truncated = truncate_history(&history, 6);
    assert!(truncated.len() <= 6);
    assert_eq!(truncated[0]["role"], "user");
}

#[test]
fn conversation_truncate_history_preserves_tool_call_pairs() {
    assert_eq!(
        truncate_history(&tool_pair_history(), 4),
        vec![json(r#"{"role": "user", "content": "ok"}"#), json(r#"{"role": "assistant", "content": "done"}"#)]
    );
}

#[test]
fn conversation_truncate_history_skips_tool_result_at_cut_point() {
    assert_eq!(
        truncate_history(&tool_result_history(), 3),
        vec![json(r#"{"role": "assistant", "content": "b"}"#), json(r#"{"role": "user", "content": "c"}"#)]
    );
}

#[test]
fn conversation_truncate_history_noop_when_no_safe_cut_point() {
    let history = only_tool_results();
    assert_eq!(truncate_history(&history, 1), history);
}

#[test]
fn llm_turn_truncate_history_noop_when_under_limit() {
    let history = truncate_history(&short_history(), 5);
    assert_eq!(history.len(), 2);
}

#[test]
fn llm_turn_truncate_history_drops_oldest_messages() {
    let history = long_history();
    assert_eq!(history.len(), 20);
    let history = truncate_history(&history, 6);
    assert!(history.len() <= 6);
    assert_eq!(history[0]["role"], "user");
}

#[test]
fn llm_turn_truncate_history_preserves_tool_call_pairs() {
    let history = truncate_history(&tool_pair_history(), 4);
    assert_eq!(history.len(), 2);
    assert_eq!(history[0]["role"], "user");
    assert_eq!(history[0]["content"], "ok");
}

#[test]
fn llm_turn_truncate_history_skips_tool_result_at_cut_point() {
    let history = truncate_history(&tool_result_history(), 3);
    assert_eq!(history.len(), 2);
    assert_eq!(history[0]["role"], "assistant");
    assert_eq!(history[0]["content"], "b");
}

#[test]
fn llm_turn_truncate_history_noop_when_no_safe_cut_point() {
    let history = truncate_history(&only_tool_results(), 1);
    assert_eq!(history.len(), 3);
}

#[test]
fn message_shapes_are_read_from_json() {
    assert_eq!(
        message_shape(&json(r#"{"role": "assistant", "tool_calls": [{"id": "c"}]}"#)),
        MessageShape { role: "assistant".into(), has_tool_calls: true }
    );
    assert_eq!(
        message_shape(&json(r#"{"role": "assistant", "tool_calls": []}"#)),
        MessageShape { role: "assistant".into(), has_tool_calls: false }
    );
    assert_eq!(message_shape(&json(r#"{"content": "x"}"#)), MessageShape { role: String::new(), has_tool_calls: false });
}
