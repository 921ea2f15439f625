use consensus::types::{ClaimId, ClaimRef, DraftId};
use consensus::llm_turn::{error_content, finish_round, invalid_arguments_error, start_round, RoundStart, MAX_TOOL_ROUNDS};
use consensus::llm_turn::{
    build_system_prompt, is_draft_mutation_tool, render_mutation_confirmation,
    synthesize_mutation_follow_up, tool_list, MutationArguments, ProcessResponseError,
    ToolDescription, ToolOutcome,
};
use consensus::response::{AssemblerError, FinishReason};

fn drafting_tools() -> Vec<ToolDescription> {
    consensus::app_tools::tool_descriptions()
}

fn no_arguments() -> MutationArguments {
    MutationArguments { body: None, source: None, target: None, claim: None, kind: None, position: None, outcome: None }
}

#[test]
fn prompt_includes_review_boundary_and_safe_tools() {
    let overview = "1 claims, 0 relations, 0 stances";
    let prompt = build_system_prompt("assistant", overview, "No pending drafts.", "No changes.", &drafting_tools());
    assert!(prompt.contains("Only the human can commit drafts"));
    assert!(prompt.contains("The tool layer injects authorship automatically"));
    assert!(prompt.contains("Never force the participant to know or use internal consensus-log concepts"));
    assert!(prompt.contains("Present assumptions in plain language"));
    assert!(prompt.contains("By default, do not create or revise drafts"));
    assert!(prompt.contains("smallest contribution would be"));
    assert!(prompt.contains("choose the weakest stance"));
    assert!(prompt.contains("claim:prop-hybrid"));
    assert!(prompt.contains("draft:3"));
    assert!(prompt.contains("inspect with claim_detail or preview_claim_detail first"));
    assert!(prompt.contains("If the participant explicitly says not to create drafts"));
    assert!(prompt.contains("prefer draft_relation over draft_stance"));
    assert!(prompt.contains("impact_analysis"));
    assert!(prompt.contains("draft_comment"));
    assert!(prompt.contains("Reply in plain text whenever no draft or inspection"));
    assert!(!prompt.contains("submit_drafts"));
    assert!(!prompt.contains("clear_drafts"));
    assert!(!prompt.contains("no_structured_action"));
    assert!(prompt.contains("Only the human can commit drafts by typing /submit."));
    assert!(prompt.contains("## Current draft impact\nNo changes.\n\n"));
}

#[test]
fn tool_list_puts_one_tool_per_line() {
    let tools = vec![
        ToolDescription { name: "a".into(), description: "first".into() },
        ToolDescription { name: "b".into(), description: "second".into() },
    ];
    assert_eq!(tool_list(&tools), "- a: first\n- b: second");
    assert_eq!(tool_list(&[]), "");
}

#[test]
fn draft_mutation_tools_are_recognized() {
    for name in ["draft_claim", "draft_relation", "draft_stance", "draft_resolve", "draft_comment", "remove_draft"] {
        assert!(is_draft_mutation_tool(name));
    }
    for name in ["overview", "show_drafts", "impact_analysis", "submit_drafts", ""] {
        assert!(!is_draft_mutation_tool(name));
    }
}

#[test]
fn confirmations_describe_the_change() {
    let relation = MutationArguments {
        source: Some("\"Auth is slow\"".into()),
        kind: Some("attacks".into()),
        ..no_arguments()
    };
    assert_eq!(
        render_mutation_confirmation("draft_relation", &Some(relation)),
        "I've prepared a draft saying that \"Auth is slow\" challenges the second idea. It's still only a local draft, so we can refine that connection before you submit it."
    );
    let stance = MutationArguments { position: Some("stand_aside".into()), target: Some("that idea".into()), ..no_arguments() };
    assert_eq!(
        render_mutation_confirmation("draft_stance", &Some(stance)),
        "I've noted that you stand aside on that idea. It's still only a local draft, so we can adjust the strength or wording before you submit it."
    );
    let resolve = MutationArguments { outcome: Some("postponed".into()), ..no_arguments() };
    assert_eq!(
        render_mutation_confirmation("draft_resolve", &Some(resolve)),
        "I've prepared a draft to mark that proposal as resolved. It's still only a local draft, so we can adjust it before you submit it."
    );
    let claim = MutationArguments { body: Some("Use JWT".into()), ..no_arguments() };
    assert_eq!(
        render_mutation_confirmation("draft_claim", &Some(claim)),
        "I've prepared a draft for \"Use JWT\". It's still only a local draft, so we can adjust the wording before you submit it."
    );
    assert_eq!(
        render_mutation_confirmation("draft_claim", &None),
        "I've updated the pending draft. It's still only local for now, so we can adjust it before you submit it."
    );
}

#[test]
fn follow_up_confirms_the_last_successful_mutation() {
    let outcomes = vec![
        ToolOutcome { function_name: "draft_comment".into(), succeeded: true, arguments: Some(MutationArguments { body: Some("note".into()), ..no_arguments() }) },
        ToolOutcome { function_name: "remove_draft".into(), succeeded: false, arguments: Some(no_arguments()) },
        ToolOutcome { function_name: "overview".into(), succeeded: true, arguments: Some(no_arguments()) },
    ];
    let message = synthesize_mutation_follow_up(&outcomes);
    assert!(message.tool_calls.is_empty());
    assert_eq!(message.finish_reason, Some(FinishReason::Stop));
    assert_eq!(
        message.content.as_deref(),
        Some("I've prepared a draft note: \"note\". It's still only a local draft, so we can revise it before you submit it.")
    );
    let message = synthesize_mutation_follow_up(&[]);
    assert_eq!(
        message.content.as_deref(),
        Some("I've updated the pending draft. It's still only local for now, so we can adjust it before you submit it.")
    );
}

#[test]
fn process_response_error_names_the_assembly_failure() {
    assert_eq!(
        ProcessResponseError(AssemblerError::Empty).message(),
        "response assembly failed: no chunks to assemble"
    );
}

#[test]
fn build_system_prompt_matches_shared_template_adapter() {
    let overview = "1 claims, 0 relations, 0 stances";
    let drafts = "No pending drafts.";
    let impact = "No changes.";
    let descriptions = drafting_tools();
    let tools = descriptions
        .iter()
        .map(|tool| format!("- {}: {}", tool.name, tool.description))
        .collect::<Vec<_>>()
        .join("\n");
    let direct = consensus::system_prompt::build_system_prompt(consensus::system_prompt::SystemPromptInput {
        participant: "assistant",
        commit_instruction: "typing /submit",
        overview,
        drafts,
        impact: Some(impact),
        tools: &tools,
    });
    assert_eq!(build_system_prompt("assistant", overview, drafts, impact, &descriptions), direct);
}

fn message_with_calls(calls: usize) -> consensus::response::CompletedAssistantMessage {
    consensus::response::CompletedAssistantMessage {
        content: None,
        tool_calls: (0..calls)
            .map(|i| consensus::response::CompletedToolCall {
                id: format!("call_{i}"),
                call_type: "function".into(),
                function_name: "overview".into(),
                arguments_json: "{}".into(),
            })
            .collect(),
        finish_reason: Some(FinishReason::ToolCalls),
    }
}

#[test]
fn rounds_end_dispatch_or_give_up_by_their_tool_calls() {
    assert_eq!(start_round(message_with_calls(0), 9, MAX_TOOL_ROUNDS), RoundStart::Final(message_with_calls(0)));
    assert_eq!(start_round(message_with_calls(2), 0, MAX_TOOL_ROUNDS), RoundStart::Dispatch(message_with_calls(2)));
    assert_eq!(
        start_round(message_with_calls(1), 8, MAX_TOOL_ROUNDS),
        RoundStart::MaxRoundsExceeded { message: message_with_calls(1), error: "max tool rounds (8) exceeded".into() }
    );
}

#[test]
fn a_round_closes_only_after_a_successful_draft_change() {
    let inspecting = vec![
        ToolOutcome { function_name: "overview".into(), succeeded: true, arguments: Some(no_arguments()) },
        ToolOutcome { function_name: "draft_claim".into(), succeeded: false, arguments: Some(no_arguments()) },
    ];
    assert_eq!(finish_round(&inspecting), None);
    let drafting = vec![ToolOutcome {
        function_name: "draft_claim".into(),
        succeeded: true,
        arguments: Some(MutationArguments { body: Some("Use JWT".into()), ..no_arguments() }),
    }];
    let closing = finish_round(&drafting).unwrap();
    assert_eq!(
        closing.content.as_deref(),
        Some("I've prepared a draft for \"Use JWT\". It's still only a local draft, so we can adjust the wording before you submit it.")
    );
    assert!(closing.tool_calls.is_empty());
}

#[test]
fn failed_tool_calls_report_their_error_as_json_text() {
    assert_eq!(error_content("draft not found"), "{\"error\":\"draft not found\"}");
    let error = invalid_arguments_error("EOF while parsing a value at line 1 column 0");
    assert_eq!(error, "invalid tool call arguments: EOF while parsing a value at line 1 column 0");
    assert_eq!(error_content(&error), "{\"error\":\"invalid tool call arguments: EOF while parsing a value at line 1 column 0\"}");
}

fn chunk_values(texts: &[&str]) -> Vec<serde_json::Value> {
    texts.iter().map(|t| serde_json::from_str(t).unwrap()).collect()
}

#[test]
fn a_round_begins_from_streamed_json_chunks() {
    let plain = chunk_values(&[
        r#"{"choices":[{"delta":{"role":"assistant","content":"Done"},"finish_reason":"stop"}]}"#,
    ]);
    match consensus::llm_turn::begin_round(&plain, 0, 3) {
        Ok(RoundStart::Final(message)) => assert_eq!(message.content, Some("Done".into())),
        other => panic!("unexpected start: {:?}", other.is_ok()),
    }

    let calling = chunk_values(&[
        r#"{"choices":[{"delta":{"role":"assistant","tool_calls":[{"index":0,"id":"call_1","type":"function","function":{"name":"overview","arguments":"{}"}}]}}]}"#,
        r#"{"choices":[{"delta":{},"finish_reason":"tool_calls"}]}"#,
    ]);
    match consensus::llm_turn::begin_round(&calling, 0, 3) {
        Ok(RoundStart::Dispatch(message)) => {
            assert_eq!(message.tool_calls.len(), 1);
            assert_eq!(message.tool_calls[0].function_name, "overview");
        }
        other => panic!("unexpected start: {:?}", other.is_ok()),
    }
    match consensus::llm_turn::begin_round(&calling, 3, 3) {
        Ok(RoundStart::MaxRoundsExceeded { error, .. }) => assert_eq!(error, "max tool rounds (3) exceeded"),
        other => panic!("unexpected start: {:?}", other.is_ok()),
    }

    assert_eq!(
        consensus::llm_turn::begin_round(&[], 0, 3).err(),
        Some(ProcessResponseError(AssemblerError::Empty))
    );
    let no_choices = chunk_values(&[r#"{"id":"x"}"#]);
    assert_eq!(
        consensus::llm_turn::begin_round(&no_choices, 0, 3).err(),
        Some(ProcessResponseError(AssemblerError::MissingChoices { index: 0 }))
    );
}

#[test]
fn tool_call_arguments_parse_or_fail_with_a_tool_result() {
    let call = |arguments: &str| consensus::response::CompletedToolCall {
        id: "call_1".into(),
        call_type: "function".into(),
        function_name: "draft_claim".into(),
        arguments_json: arguments.into(),
    };
    let parsed = consensus::llm_turn::call_arguments(&call("{\"body\":\"x\"}")).unwrap();
    assert_eq!(parsed, serde_json::from_str::<serde_json::Value>("{\"body\":\"x\"}").unwrap());
    let failure = consensus::llm_turn::call_arguments(&call("{\"body\":\"oops\"")).unwrap_err();
    assert_eq!(failure.parse_error, "EOF while parsing an object at line 1 column 14");
    assert_eq!(failure.error, "invalid tool call arguments: EOF while parsing an object at line 1 column 14");
    assert_eq!(
        failure.content,
        "{\"error\":\"invalid tool call arguments: EOF while parsing an object at line 1 column 14\"}"
    );
}

#[test]
fn mutation_arguments_are_read_from_the_parsed_arguments() {
    let arguments: serde_json::Value =
        serde_json::from_str(r#"{"source":"claim:c1","target":"draft:9","kind":"attacks","claim":7}"#).unwrap();
    let bodies = vec![
        (ClaimRef::Draft(DraftId(3)), String::from("Other")),
        (ClaimRef::Committed(ClaimId("c1".into())), String::from("Use JWT")),
    ];
    let a = consensus::llm_turn::mutation_arguments(&arguments, &bodies);
    assert_eq!(
        a,
        MutationArguments {
            body: None,
            source: Some("\"Use JWT\"".into()),
            target: Some("that idea".into()),
            claim: None,
            kind: Some("attacks".into()),
            position: None,
            outcome: None,
        }
    );
    assert_eq!(
        render_mutation_confirmation("draft_relation", &Some(a)),
        "I've prepared a draft saying that \"Use JWT\" challenges that idea. It's still only a local draft, so we can refine that connection before you submit it."
    );
}
