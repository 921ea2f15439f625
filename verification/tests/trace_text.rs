use consensus::trace_text::compact_debug_text;

#[test]
fn compact_collapses_white_space() {
    assert_eq!(compact_debug_text("  a \n\t b  ", 100), "a b");
    assert_eq!(compact_debug_text("", 5), "");
    assert_eq!(compact_debug_text("x\u{3000}y", 5), "x y");
}

#[test]
fn compact_cuts_long_text_by_characters() {
    assert_eq!(compact_debug_text("abcdef", 3), "abc...");
    assert_eq!(compact_debug_text("abc", 3), "abc");
    assert_eq!(compact_debug_text("ééééé", 2), "éé...");
}

fn execution(name: &str, arguments: &str, dispatch_error: Option<&str>) -> consensus::llm_turn::ToolExecutionTrace {
    consensus::llm_turn::ToolExecutionTrace {
        call_id: String::from("call_1"),
        function_name: String::from(name),
        arguments_json: String::from(arguments),
        parsed_arguments: None,
        argument_parse_error: None,
        tool_result_content: String::new(),
        dispatch_error: dispatch_error.map(String::from),
    }
}

fn round(number: usize, tool_results: Vec<consensus::llm_turn::ToolExecutionTrace>) -> consensus::llm_turn::LlmRoundTrace {
    consensus::llm_turn::LlmRoundTrace {
        round: number,
        request_history_messages: 0,
        request_messages: 1,
        response_chunks: 2,
        assistant_message: None,
        tool_results,
        error: None,
    }
}

#[test]
fn entry_buffer_format_tool_trace_lists_each_tool_round() {
    let trace = consensus::llm_turn::LlmTurnTrace {
        rounds: vec![round(0, vec![execution("draft_stance", "{\"target_id\":\"prop-hybrid\",\"position\":\"consent\"}", None)])],
        final_message: None,
    };
    let lines = consensus::trace_text::format_tool_trace(&trace);
    assert_eq!(lines.len(), 1);
    assert!(lines[0].contains("round 0"));
    assert!(lines[0].contains("draft_stance"));
    assert!(lines[0].contains("prop-hybrid"));
}

#[test]
fn app_format_tool_trace_lists_each_tool_round() {
    let trace = consensus::llm_turn::LlmTurnTrace {
        rounds: vec![round(0, vec![execution("draft_stance", "{\"target_id\":\"prop-hybrid\",\"position\":\"consent\"}", None)])],
        final_message: None,
    };
    let lines = consensus::trace_text::format_tool_trace(&trace);
    assert_eq!(lines.len(), 1);
    assert!(lines[0].contains("round 0"));
    assert!(lines[0].contains("draft_stance"));
    assert!(lines[0].contains("prop-hybrid"));
}

#[test]
fn format_tool_trace_reports_quiet_rounds_and_dispatch_errors() {
    let trace = consensus::llm_turn::LlmTurnTrace {
        rounds: vec![round(0, vec![]), round(1, vec![execution("remove_draft", "{ \"draft_id\":\n 9 }", Some("draft   not found"))])],
        final_message: None,
    };
    let lines = consensus::trace_text::format_tool_trace(&trace);
    assert_eq!(
        lines,
        vec![
            "[trace] round 0 no tool calls".to_string(),
            "[trace] round 1 tool remove_draft { \"draft_id\": 9 }".to_string(),
            "[trace] round 1 error draft not found".to_string(),
        ]
    );
}
