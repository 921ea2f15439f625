//! The system prompt of an LLM taking part in a deliberation: its role,
//! the current state, the tools it may call and how to behave.
use vstd::prelude::*;

verus! {

/// What the caller supplies for the prompt.
#[derive(Debug)]
pub struct PromptConfig {
    /// The participant name the LLM drafts under.
    pub participant_name: String,
    /// The LLM's role, as one opening line.
    pub role_description: String,
    /// Session-specific instructions, appended last; may be empty.
    pub custom_instructions: String,
}

/// The closing section for custom instructions: nothing when there are none.
pub open spec fn custom_section(custom: Seq<char>) -> Seq<char> {
    if custom.len() == 0 {
        Seq::empty()
    } else {
        "\n"@ + custom
    }
}

/// The prompt for a deliberation whose state reads `state_text`.
pub open spec fn prompt_text(state_text: Seq<char>, config: PromptConfig) -> Seq<char> {
    config.role_description@ + "\n\nYou are participating as \""@ + config.participant_name@ + "\".\n\n## Current deliberation state\n\n"@ + state_text
        + "\n## Available tools\n\n- overview: Get the current deliberation overview\n- claim_detail(claim_id): Examine a specific claim in detail\n- draft_claim(body, kind, parent?): Propose a new claim\n- draft_relation(source, target, kind): Add attack/support relation\n- draft_stance(target, position): Take a position on a claim\n- draft_resolve(claim, outcome): Propose resolution\n- draft_comment(body, claim?): Draft a freeform comment\n- show_drafts: See your pending drafts\n- remove_draft(draft_id): Remove a draft\n- submit_drafts: Submit all drafts to the deliberation\n- clear_drafts: Discard all drafts\n- preview_overview: Preview state with your drafts applied\n- preview_claim_detail(claim): Preview a claim with drafts applied\n- impact_analysis: Compare committed state with your current drafts\n\n## Guidelines\n\n- Examine claims before taking stances (use claim_detail)\n- Address attention signals: unexamined claims need stances, contested claims need arguments\n- Draft entries before submitting — review with show_drafts and preview_overview\n- The active participant is \""@ + config.participant_name@ + "\"; draft authorship is injected automatically\n- Draft-local claim references use draft IDs; committed claim references use claim IDs\n- Explain your reasoning to the user before and after using tools\n"@ + custom_section(
        config.custom_instructions@,
    )
}

/// Build the system prompt from the rendered deliberation state.
pub fn build_system_prompt(state_text: &str, config: &PromptConfig) -> (prompt: String)
    ensures
        prompt@ == prompt_text(state_text@, *config),
{
    let mut prompt = String::new();
    prompt.append(config.role_description.as_str());
    prompt.append("\n\nYou are participating as \"");
    prompt.append(config.participant_name.as_str());
    prompt.append("\".\n\n## Current deliberation state\n\n");
    prompt.append(state_text);
    prompt.append("\n## Available tools\n\n- overview: Get the current deliberation overview\n- claim_detail(claim_id): Examine a specific claim in detail\n- draft_claim(body, kind, parent?): Propose a new claim\n- draft_relation(source, target, kind): Add attack/support relation\n- draft_stance(target, position): Take a position on a claim\n- draft_resolve(claim, outcome): Propose resolution\n- draft_comment(body, claim?): Draft a freeform comment\n- show_drafts: See your pending drafts\n- remove_draft(draft_id): Remove a draft\n- submit_drafts: Submit all drafts to the deliberation\n- clear_drafts: Discard all drafts\n- preview_overview: Preview state with your drafts applied\n- preview_claim_detail(claim): Preview a claim with drafts applied\n- impact_analysis: Compare committed state with your current drafts\n\n## Guidelines\n\n- Examine claims before taking stances (use claim_detail)\n- Address attention signals: unexamined claims need stances, contested claims need arguments\n- Draft entries before submitting — review with show_drafts and preview_overview\n- The active participant is \"");
    prompt.append(config.participant_name.as_str());
    prompt.append("\"; draft authorship is injected automatically\n- Draft-local claim references use draft IDs; committed claim references use claim IDs\n- Explain your reasoning to the user before and after using tools\n");
    let ghost body = prompt@;
    if config.custom_instructions.as_str().unicode_len() > 0 {
        prompt.append("\n");
        prompt.append(config.custom_instructions.as_str());
    } else {
        assert(body + custom_section(config.custom_instructions@) =~= body);
    }
    assert(prompt@ =~= prompt_text(state_text@, *config));
    prompt
}

/// `s` holds `t` as a contiguous piece.
#[verifier::opaque]
pub open spec fn holds(s: Seq<char>, t: Seq<char>) -> bool {
    exists|i: int| 0 <= i && i + t.len() <= s.len() && #[trigger] s.subrange(i, i + t.len()) == t
}

/// The text between the state and the closing participant line: the tool
/// listing and the guidelines.
pub open spec fn tools_and_guidelines() -> Seq<char> {
    "\n## Available tools\n\n- overview: Get the current deliberation overview\n- claim_detail(claim_id): Examine a specific claim in detail\n- draft_claim(body, kind, parent?): Propose a new claim\n- draft_relation(source, target, kind): Add attack/support relation\n- draft_stance(target, position): Take a position on a claim\n- draft_resolve(claim, outcome): Propose resolution\n- draft_comment(body, claim?): Draft a freeform comment\n- show_drafts: See your pending drafts\n- remove_draft(draft_id): Remove a draft\n- submit_drafts: Submit all drafts to the deliberation\n- clear_drafts: Discard all drafts\n- preview_overview: Preview state with your drafts applied\n- preview_claim_detail(claim): Preview a claim with drafts applied\n- impact_analysis: Compare committed state with your current drafts\n\n## Guidelines\n\n- Examine claims before taking stances (use claim_detail)\n- Address attention signals: unexamined claims need stances, contested claims need arguments\n- Draft entries before submitting \u{2014} review with show_drafts and preview_overview\n- The active participant is \""@
}

proof fn lemma_holds_at(a: Seq<char>, t: Seq<char>, b: Seq<char>)
    ensures
        holds(a + t + b, t),
{
    reveal(holds);
    let s = a + t + b;
    assert(s.subrange(a.len() as int, (a.len() + t.len()) as int) =~= t);
}

/// Whatever the state and the configuration, the prompt opens with the
/// role description, names the participant, holds the state text and the
/// tool listing, and ends with the custom instructions when there are any.
pub proof fn lemma_prompt_holds_its_inputs(state_text: Seq<char>, config: PromptConfig)
    ensures
        prompt_text(state_text, config).take(config.role_description@.len() as int)
            == config.role_description@,
        holds(prompt_text(state_text, config), config.participant_name@),
        holds(prompt_text(state_text, config), state_text),
        holds(prompt_text(state_text, config), tools_and_guidelines()),
        config.custom_instructions@.len() > 0 ==> prompt_text(state_text, config).skip(
            prompt_text(state_text, config).len() - config.custom_instructions@.len(),
        ) == config.custom_instructions@,
{
    let r = config.role_description@;
    let p = config.participant_name@;
    let c = config.custom_instructions@;
    let l1 = "\n\nYou are participating as \""@;
    let l2 = "\".\n\n## Current deliberation state\n\n"@;
    let l4 = "\"; draft authorship is injected automatically\n- Draft-local claim references use draft IDs; committed claim references use claim IDs\n- Explain your reasoning to the user before and after using tools\n"@;
    let tail = tools_and_guidelines() + p + l4 + custom_section(c);
    let s = prompt_text(state_text, config);
    assert(s =~= r + l1 + p + l2 + state_text + tools_and_guidelines() + p + l4 + custom_section(c));
    assert(s.take(r.len() as int) =~= r);
    assert(s =~= (r + l1) + p + (l2 + state_text + tail));
    lemma_holds_at(r + l1, p, l2 + state_text + tail);
    assert(s =~= (r + l1 + p + l2) + state_text + tail);
    lemma_holds_at(r + l1 + p + l2, state_text, tail);
    assert(s =~= (r + l1 + p + l2 + state_text) + tools_and_guidelines() + (p + l4 + custom_section(c)));
    lemma_holds_at(r + l1 + p + l2 + state_text, tools_and_guidelines(), p + l4 + custom_section(c));
    if c.len() > 0 {
        assert(s.skip(s.len() - c.len()) =~= c);
    }
}

} // verus!
