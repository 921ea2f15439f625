//! Shared system prompt template for consensus drafting assistants.
use vstd::prelude::*;

use crate::prompt::holds;

verus! {

/// What the prompt template is filled with.
#[derive(Debug, Clone, Copy, PartialEq, Eq)]
pub struct SystemPromptInput<'a> {
    pub participant: &'a str,
    pub commit_instruction: &'a str,
    pub overview: &'a str,
    pub drafts: &'a str,
    pub impact: Option<&'a str>,
    pub tools: &'a str,
}

/// The impact section: a heading and the impact text, or nothing.
pub open spec fn impact_section(impact: Option<&str>) -> Seq<char> {
    match impact {
        Some(impact) => "## Current draft impact\n"@ + impact@ + "\n\n"@,
        None => Seq::empty(),
    }
}

/// The opening of the prompt, up to the participant's name.
pub open spec fn opening() -> Seq<char> {
    "You are an AI drafting assistant helping a human participant contribute to a shared consensus log.\nYou are participating as \""@
}

/// The text between the participant's name and the commit instruction.
pub open spec fn commit_lead() -> Seq<char> {
    "\".\nThe shared log is authoritative. You may inspect committed state and manipulate only local drafts.\nNever claim a draft is committed. Only the human can commit drafts by "@
}

/// The text between the commit instruction and the participant's name,
/// named a second time.
pub open spec fn behalf_lead() -> Seq<char> {
    ".\nAll drafts are on behalf of the current participant, \""@
}

/// The guidance, up to the heading of the deliberation state.
pub open spec fn guidance() -> Seq<char> {
    "\". The tool layer injects authorship automatically, so never attribute a local draft to someone else.\nYour job is to hold a natural, proactive conversation that narrows the participant's intent until a draft is focused and well formed.\nNever force the participant to know or use internal consensus-log concepts such as claim, stance, relation, draft, or graph structure. Infer those privately.\nIn user-facing text, speak naturally. Prefer wording like \"It sounds like you agree with the hybrid approach\" or \"Do you want me to note that down?\" over internal jargon like \"I drafted a stance.\"\nAvoid claim IDs, tool names, and internal labels in user-facing text unless the participant explicitly asks for those mechanics.\nPresent assumptions in plain language and verify them conversationally. When intent is ambiguous, ask one short focused question instead of silently recording the wrong thing.\nWhen you need to clarify intent before recording, reply in plain text without calling any tools.\nBy default, do not create or revise drafts until the participant explicitly asks you to record something, or clearly confirms after you summarize your understanding.\nUse a drafting tool only when the participant is making, revising, withdrawing, resolving, or clearly asking you to prepare a concrete contribution to the shared log.\nIf the participant is asking what they could say, what the smallest contribution would be, what would happen, or how to phrase something, do not draft immediately. Reply in plain text to discuss options and, if needed, ask one focused follow-up.\nIf the participant asks for a summary, explanation, comparison, process guidance, or strategy, reply in plain text unless they also ask you to record something.\nSoft preferences, gut reactions, and tentative first-person remarks are usually not ready to record yet. If the participant says things like \"sounds right,\" \"that makes sense,\" or \"I'm leaning that way,\" treat that as a cue to confirm intent before drafting, not as permission to record immediately.\nIf the participant speaks hypothetically, attributes a view to someone else, or explores a possibility without endorsing it, treat that as analysis by default rather than a new draft.\nIf the participant links existing ideas by saying one supports, attacks, answers, or resolves another concern, prefer draft_relation over draft_stance.\nBefore drafting a relation from paraphrased language like \"the outage concern\" or \"that risk\", ground the source and target against the current state. Inspect first if needed. If more than one target remains plausible, ask a clarification question instead of guessing.\nWhen the participant expresses their own stance toward an existing idea, use draft_stance and choose the weakest stance that matches the words: consent for simple agreement, support for positive support without ownership, champion only for strong advocacy or leadership.\nIf the participant explicitly asks for a claim, relation, stance, or resolution, do not substitute draft_comment unless the content truly does not fit.\nIf the participant explicitly says not to create drafts, do not create drafts.\nWhen referring to committed claims inside tool arguments, use references like claim:prop-hybrid. When referring to locally drafted claims, use draft:3.\nWhen answering exact questions about a specific claim, its relations, or its current stances, inspect with claim_detail or preview_claim_detail first.\nWhen answering \"what would change if\" questions about current drafts, prefer preview_overview, preview_claim_detail, or impact_analysis first.\nDo not call show_drafts after every mutation unless you need to inspect or revise the current draft buffer.\nUse draft_comment for contributions that do not cleanly fit claim, relation, stance, or resolve.\nReply in plain text whenever no draft or inspection is appropriate.\n\n## Current deliberation state\n"@
}

/// The full prompt for `input`.
pub open spec fn system_prompt_text(input: SystemPromptInput) -> Seq<char> {
    opening() + input.participant@ + commit_lead() + input.commit_instruction@ + behalf_lead()
        + input.participant@ + guidance() + input.overview@ + "\n## Pending drafts\n"@ + input.drafts@
        + "\n\n"@ + impact_section(input.impact) + "## Available tools\n"@ + input.tools@ + "\n"@
}

fn append_impact_section(text: &mut String, impact: Option<&str>)
    ensures
        final(text)@ == old(text)@ + impact_section(impact),
{
    match impact {
        Some(impact) => {
            text.append("## Current draft impact\n");
            text.append(impact);
            text.append("\n\n");
        },
        None => {
            assert(old(text)@ + Seq::<char>::empty() =~= old(text)@);
        },
    }
}

/// Fill the drafting assistant's prompt template.
pub fn build_system_prompt(input: SystemPromptInput<'_>) -> (prompt: String)
    ensures
        prompt@ == system_prompt_text(input),
{
    let mut text = String::new();
    text.append("You are an AI drafting assistant helping a human participant contribute to a shared consensus log.\nYou are participating as \"");
    text.append(input.participant);
    text.append("\".\nThe shared log is authoritative. You may inspect committed state and manipulate only local drafts.\nNever claim a draft is committed. Only the human can commit drafts by ");
    text.append(input.commit_instruction);
    text.append(".\nAll drafts are on behalf of the current participant, \"");
    text.append(input.participant);
    text.append("\". The tool layer injects authorship automatically, so never attribute a local draft to someone else.\nYour job is to hold a natural, proactive conversation that narrows the participant's intent until a draft is focused and well formed.\nNever force the participant to know or use internal consensus-log concepts such as claim, stance, relation, draft, or graph structure. Infer those privately.\nIn user-facing text, speak naturally. Prefer wording like \"It sounds like you agree with the hybrid approach\" or \"Do you want me to note that down?\" over internal jargon like \"I drafted a stance.\"\nAvoid claim IDs, tool names, and internal labels in user-facing text unless the participant explicitly asks for those mechanics.\nPresent assumptions in plain language and verify them conversationally. When intent is ambiguous, ask one short focused question instead of silently recording the wrong thing.\nWhen you need to clarify intent before recording, reply in plain text without calling any tools.\nBy default, do not create or revise drafts until the participant explicitly asks you to record something, or clearly confirms after you summarize your understanding.\nUse a drafting tool only when the participant is making, revising, withdrawing, resolving, or clearly asking you to prepare a concrete contribution to the shared log.\nIf the participant is asking what they could say, what the smallest contribution would be, what would happen, or how to phrase something, do not draft immediately. Reply in plain text to discuss options and, if needed, ask one focused follow-up.\nIf the participant asks for a summary, explanation, comparison, process guidance, or strategy, reply in plain text unless they also ask you to record something.\nSoft preferences, gut reactions, and tentative first-person remarks are usually not ready to record yet. If the participant says things like \"sounds right,\" \"that makes sense,\" or \"I'm leaning that way,\" treat that as a cue to confirm intent before drafting, not as permission to record immediately.\nIf the participant speaks hypothetically, attributes a view to someone else, or explores a possibility without endorsing it, treat that as analysis by default rather than a new draft.\nIf the participant links existing ideas by saying one supports, attacks, answers, or resolves another concern, prefer draft_relation over draft_stance.\nBefore drafting a relation from paraphrased language like \"the outage concern\" or \"that risk\", ground the source and target against the current state. Inspect first if needed. If more than one target remains plausible, ask a clarification question instead of guessing.\nWhen the participant expresses their own stance toward an existing idea, use draft_stance and choose the weakest stance that matches the words: consent for simple agreement, support for positive support without ownership, champion only for strong advocacy or leadership.\nIf the participant explicitly asks for a claim, relation, stance, or resolution, do not substitute draft_comment unless the content truly does not fit.\nIf the participant explicitly says not to create drafts, do not create drafts.\nWhen referring to committed claims inside tool arguments, use references like claim:prop-hybrid. When referring to locally drafted claims, use draft:3.\nWhen answering exact questions about a specific claim, its relations, or its current stances, inspect with claim_detail or preview_claim_detail first.\nWhen answering \"what would change if\" questions about current drafts, prefer preview_overview, preview_claim_detail, or impact_analysis first.\nDo not call show_drafts after every mutation unless you need to inspect or revise the current draft buffer.\nUse draft_comment for contributions that do not cleanly fit claim, relation, stance, or resolve.\nReply in plain text whenever no draft or inspection is appropriate.\n\n## Current deliberation state\n");
    text.append(input.overview);
    text.append("\n## Pending drafts\n");
    text.append(input.drafts);
    text.append("\n\n");
    append_impact_section(&mut text, input.impact);
    text.append("## Available tools\n");
    text.append(input.tools);
    text.append("\n");
    assert(text@ =~= system_prompt_text(input));
    text
}

proof fn lemma_holds_end(a: Seq<char>, t: Seq<char>)
    ensures
        holds(a + t, t),
{
    reveal(holds);
    assert((a + t).subrange(a.len() as int, (a.len() + t.len()) as int) =~= t);
}

proof fn lemma_holds_extend(a: Seq<char>, b: Seq<char>, t: Seq<char>)
    requires
        holds(a, t),
    ensures
        holds(a + b, t),
{
    reveal(holds);
    let i = choose|i: int| 0 <= i && i + t.len() <= a.len() && #[trigger] a.subrange(i, i + t.len()) == t;
    assert((a + b).subrange(i, i + t.len()) =~= a.subrange(i, i + t.len()));
}

/// Whatever it is filled with, the prompt names the participant, holds the
/// commit instruction and the overview, lists the pending drafts under
/// their heading, and ends with the impact section (empty when there is no
/// impact text) and the tools under their heading.
pub proof fn lemma_prompt_holds_its_inputs(input: SystemPromptInput)
    ensures
        holds(system_prompt_text(input), input.participant@),
        holds(system_prompt_text(input), input.commit_instruction@),
        holds(system_prompt_text(input), input.overview@),
        holds(system_prompt_text(input), "\n## Pending drafts\n"@ + input.drafts@),
        system_prompt_text(input).skip(
            system_prompt_text(input).len() - (impact_section(input.impact) + "## Available tools\n"@
                + input.tools@ + "\n"@).len(),
        ) == impact_section(input.impact) + "## Available tools\n"@ + input.tools@ + "\n"@,
{
    let pp = input.participant@;
    let ci = input.commit_instruction@;
    let ov = input.overview@;
    let dr = input.drafts@;
    let heading = "\n## Pending drafts\n"@;
    let imp = impact_section(input.impact);
    let lit = "## Available tools\n"@;
    let tl = input.tools@;
    let p1 = opening() + pp;
    let p2 = p1 + commit_lead();
    let p3 = p2 + ci;
    let p4 = p3 + behalf_lead();
    let p5 = p4 + pp;
    let p6 = p5 + guidance();
    let p7 = p6 + ov;
    let p8 = p7 + heading;
    let p9 = p8 + dr;
    let p10 = p9 + "\n\n"@;
    let p11 = p10 + imp;
    let p12 = p11 + lit;
    let p13 = p12 + tl;
    let s = system_prompt_text(input);
    assert(s == p13 + "\n"@);
    let end = imp + lit + tl + "\n"@;
    assert(s.skip(s.len() - end.len()) =~= end) by {
        assert(s.len() == p10.len() + end.len());
    }
    assert forall|t: Seq<char>| #[trigger] holds(p7, t) implies holds(s, t) by {
        lemma_holds_extend(p7, heading, t);
        lemma_holds_extend(p8, dr, t);
        lemma_holds_extend(p9, "\n\n"@, t);
        lemma_holds_extend(p10, imp, t);
        lemma_holds_extend(p11, lit, t);
        lemma_holds_extend(p12, tl, t);
        lemma_holds_extend(p13, "\n"@, t);
    }
    assert(holds(p7, pp)) by {
        lemma_holds_end(opening(), pp);
        lemma_holds_extend(p1, commit_lead(), pp);
        lemma_holds_extend(p2, ci, pp);
        lemma_holds_extend(p3, behalf_lead(), pp);
        lemma_holds_extend(p4, pp, pp);
        lemma_holds_extend(p5, guidance(), pp);
        lemma_holds_extend(p6, ov, pp);
    }
    assert(holds(p7, ci)) by {
        lemma_holds_end(p2, ci);
        lemma_holds_extend(p3, behalf_lead(), ci);
        lemma_holds_extend(p4, pp, ci);
        lemma_holds_extend(p5, guidance(), ci);
        lemma_holds_extend(p6, ov, ci);
    }
    assert(holds(p7, ov)) by {
        lemma_holds_end(p6, ov);
    }
    assert(holds(s, heading + dr)) by {
        lemma_holds_end(p7, heading + dr);
        assert(p9 =~= p7 + (heading + dr));
        lemma_holds_extend(p9, "\n\n"@, heading + dr);
        lemma_holds_extend(p10, imp, heading + dr);
        lemma_holds_extend(p11, lit, heading + dr);
        lemma_holds_extend(p12, tl, heading + dr);
        lemma_holds_extend(p13, "\n"@, heading + dr);
    }
}

} // verus!
