use consensus::prompt::{build_system_prompt, PromptConfig};

const EMPTY_STATE: &str = "Deliberation: 0 claims, 0 relations, 0 stances\n";

fn test_config() -> PromptConfig {
    PromptConfig {
        participant_name: "assistant".into(),
        role_description: "You are an AI facilitator helping a team reach consensus.".into(),
        custom_instructions: String::new(),
    }
}

#[test]
fn includes_role_and_participant() {
    let prompt = build_system_prompt(EMPTY_STATE, &test_config());
    assert!(prompt.contains("AI facilitator"));
    assert!(prompt.contains("\"assistant\""));
}

#[test]
fn includes_deliberation_state() {
    let prompt = build_system_prompt(EMPTY_STATE, &test_config());
    assert!(prompt.contains("Current deliberation state"));
    assert!(prompt.contains("0 claims"));
}

#[test]
fn includes_tool_listing() {
    let prompt = build_system_prompt(EMPTY_STATE, &test_config());
    assert!(prompt.contains("Available tools"));
    assert!(prompt.contains("draft_claim"));
    assert!(prompt.contains("submit_drafts"));
    assert!(prompt.contains("preview_overview"));
}

#[test]
fn includes_custom_instructions() {
    let config = PromptConfig { custom_instructions: "Focus on security concerns.".into(), ..test_config() };
    let prompt = build_system_prompt(EMPTY_STATE, &config);
    assert!(prompt.contains("Focus on security concerns."));
    assert!(prompt.ends_with("\n\nFocus on security concerns."));
}

#[test]
fn omits_custom_section_when_empty() {
    let prompt = build_system_prompt(EMPTY_STATE, &test_config());
    assert!(!prompt.contains("Focus on"));
    assert!(prompt.ends_with("- Explain your reasoning to the user before and after using tools\n"));
}

#[test]
fn populated_engine_shows_counts() {
    let state = "Deliberation: 1 claims, 0 relations, 1 stances\nActive proposals: 1\n";
    let prompt = build_system_prompt(state, &test_config());
    assert!(prompt.contains("1 claims"));
    assert!(prompt.contains("1 stances"));
    assert!(prompt.contains("Active proposals: 1"));
}

#[test]
fn prompt_layout_is_exact_at_the_start() {
    let prompt = build_system_prompt("STATE", &test_config());
    assert!(prompt.starts_with(
        "You are an AI facilitator helping a team reach consensus.\n\nYou are participating as \"assistant\".\n\n## Current deliberation state\n\nSTATE\n## Available tools\n\n- overview:"
    ));
    assert!(prompt.contains("- The active participant is \"assistant\"; draft authorship is injected automatically\n"));
}
