//! The drafting assistant's turn: its system prompt, which tools change the
//! drafts, and the confirmation it gives after changing them.
use vstd::prelude::*;

use serde_json::Value;

use crate::response::{
    opt_view,
    assemble, assembly_of, error_text, AssemblerError, CompletedAssistantMessage, CompletedToolCall,
    FinishReason, StreamChunk,
};
use crate::json::{json_member, member, owned_text_field, text_member};
use crate::sse::{json_from_text, parse_json_text};
use crate::tool_arguments::{claim_ref_of_json, ref_read};
use crate::types::ClaimRef;
use crate::stream_json::{chunk_read, stream_chunks_of};
use crate::strings::{append_decimal, decimal, str_eq, to_string};
use crate::system_prompt::{self, system_prompt_text, SystemPromptInput};

verus! {

/// The most tool rounds in one turn.
pub const MAX_TOOL_ROUNDS: usize = 8;

/// The most tokens one completion may hold.
pub const MAX_COMPLETION_TOKENS: u64 = 512;

/// What happened in one turn, round by round.
pub struct LlmTurnTrace {
    pub rounds: Vec<LlmRoundTrace>,
    pub final_message: Option<CompletedAssistantMessage>,
}

/// What happened in one round of a turn.
pub struct LlmRoundTrace {
    pub round: usize,
    pub request_history_messages: usize,
    pub request_messages: usize,
    pub response_chunks: usize,
    pub assistant_message: Option<CompletedAssistantMessage>,
    pub tool_results: Vec<ToolExecutionTrace>,
    pub error: Option<String>,
}

/// One tool call of a round and how it went.
pub struct ToolExecutionTrace {
    pub call_id: String,
    pub function_name: String,
    pub arguments_json: String,
    pub parsed_arguments: Option<Value>,
    pub argument_parse_error: Option<String>,
    pub tool_result_content: String,
    pub dispatch_error: Option<String>,
}

/// The chunks of a response could not be assembled.
#[derive(Debug, PartialEq, Eq)]
pub struct ProcessResponseError(pub AssemblerError);

impl ProcessResponseError {
    /// The error's message.
    pub fn message(&self) -> (text: String)
        ensures
            text@ == "response assembly failed: "@ + error_text(self.0),
    {
        let mut text = to_string("response assembly failed: ");
        let inner = self.0.message();
        text.append(inner.as_str());
        text
    }
}

/// Where a turn stands and what bounds it.
#[derive(Debug, Clone, Copy, PartialEq, Eq)]
pub struct TurnConfig<'a> {
    pub round: usize,
    pub max_rounds: usize,
    pub max_history: usize,
    pub model: &'a str,
    pub participant: &'a str,
}

/// A tool as the prompt lists it.
#[derive(Debug, PartialEq, Eq)]
pub struct ToolDescription {
    pub name: String,
    pub description: String,
}

/// What a confirmation says about a draft change: the arguments as the
/// model sent them, with the claims it referred to already described
/// (`Some` when the argument is a claim reference; the description is the
/// quoted claim body, or "that idea" when the claim cannot be shown).
#[derive(Debug, PartialEq, Eq)]
pub struct MutationArguments {
    pub body: Option<String>,
    pub source: Option<String>,
    pub target: Option<String>,
    pub claim: Option<String>,
    pub kind: Option<String>,
    pub position: Option<String>,
    pub outcome: Option<String>,
}

/// One executed tool call of a round.
#[derive(Debug, PartialEq, Eq)]
pub struct ToolOutcome {
    pub function_name: String,
    /// The call went through without a dispatch error.
    pub succeeded: bool,
    /// The call's arguments, when they parsed.
    pub arguments: Option<MutationArguments>,
}

// ---------------------------------------------------------------------------
// Mathematical model
// ---------------------------------------------------------------------------

/// The tools that change the draft buffer.
pub open spec fn mutates_drafts(name: Seq<char>) -> bool {
    name == "draft_claim"@ || name == "draft_relation"@ || name == "draft_stance"@ || name
        == "draft_resolve"@ || name == "draft_comment"@ || name == "remove_draft"@
}

pub open spec fn tool_line(tool: ToolDescription) -> Seq<char> {
    "- "@ + tool.name@ + ": "@ + tool.description@
}

/// One line per tool, joined by line breaks.
pub open spec fn tool_list_text(tools: Seq<ToolDescription>) -> Seq<char>
    decreases tools.len(),
{
    if tools.len() == 0 {
        Seq::empty()
    } else if tools.len() == 1 {
        tool_line(tools[0])
    } else {
        tool_list_text(tools.drop_last()) + "\n"@ + tool_line(tools.last())
    }
}

pub open spec fn or_default(value: Option<String>, default: Seq<char>) -> Seq<char> {
    match value {
        Some(v) => v@,
        None => default,
    }
}

pub open spec fn relation_verb(kind: Option<String>) -> Seq<char> {
    match kind {
        Some(k) => if k@ == "attacks"@ {
            "challenges"@
        } else {
            "supports"@
        },
        None => "supports"@,
    }
}

pub open spec fn stance_phrase(position: Option<String>) -> Seq<char> {
    match position {
        Some(p) => if p@ == "consent"@ {
            "agree with"@
        } else if p@ == "support"@ {
            "support"@
        } else if p@ == "champion"@ {
            "strongly back"@
        } else if p@ == "object"@ {
            "object to"@
        } else if p@ == "block"@ {
            "block"@
        } else if p@ == "abstain"@ {
            "abstain on"@
        } else if p@ == "stand_aside"@ {
            "stand aside on"@
        } else {
            "take a position on"@
        },
        None => "take a position on"@,
    }
}

pub open spec fn outcome_word(outcome: Option<String>) -> Seq<char> {
    match outcome {
        Some(o) => if o@ == "accepted"@ || o@ == "rejected"@ || o@ == "tabled"@ || o@
            == "withdrawn"@ {
            o@
        } else {
            "resolved"@
        },
        None => "resolved"@,
    }
}

pub open spec fn generic_confirmation() -> Seq<char> {
    "I've updated the pending draft. It's still only local for now, so we can adjust it before you submit it."@
}

/// The confirmation after the tool `name` changed the drafts.
pub open spec fn confirmation_text(name: Seq<char>, arguments: Option<MutationArguments>) -> Seq<
    char,
> {
    match arguments {
        None => generic_confirmation(),
        Some(a) => if name == "draft_claim"@ {
            "I've prepared a draft for \""@ + or_default(a.body, "that idea"@)
                + "\". It's still only a local draft, so we can adjust the wording before you submit it."@
        } else if name == "draft_relation"@ {
            "I've prepared a draft saying that "@ + or_default(a.source, "the first idea"@) + " "@
                + relation_verb(a.kind) + " "@ + or_default(a.target, "the second idea"@)
                + ". It's still only a local draft, so we can refine that connection before you submit it."@
        } else if name == "draft_stance"@ {
            "I've noted that you "@ + stance_phrase(a.position) + " "@ + or_default(
                a.target,
                "that idea"@,
            )
                + ". It's still only a local draft, so we can adjust the strength or wording before you submit it."@
        } else if name == "draft_resolve"@ {
            "I've prepared a draft to mark "@ + or_default(a.claim, "that proposal"@) + " as "@
                + outcome_word(a.outcome)
                + ". It's still only a local draft, so we can adjust it before you submit it."@
        } else if name == "draft_comment"@ {
            "I've prepared a draft note: \""@ + or_default(a.body, "that note"@)
                + "\". It's still only a local draft, so we can revise it before you submit it."@
        } else if name == "remove_draft"@ {
            "I've removed that pending draft. If you want, we can prepare a revised version instead."@
        } else {
            generic_confirmation()
        },
    }
}

/// Index of the last successful draft change among the first `n` outcomes,
/// or -1.
pub open spec fn last_mutation(outcomes: Seq<ToolOutcome>, n: int) -> int
    decreases n,
{
    if n <= 0 {
        -1
    } else if outcomes[n - 1].succeeded && mutates_drafts(outcomes[n - 1].function_name@) {
        n - 1
    } else {
        last_mutation(outcomes, n - 1)
    }
}

// ---------------------------------------------------------------------------
// Executable code
// ---------------------------------------------------------------------------

/// Whether the named tool changes the draft buffer.
pub fn is_draft_mutation_tool(function_name: &str) -> (mutates: bool)
    ensures
        mutates == mutates_drafts(function_name@),
{
    str_eq(function_name, "draft_claim") || str_eq(function_name, "draft_relation") || str_eq(
        function_name,
        "draft_stance",
    ) || str_eq(function_name, "draft_resolve") || str_eq(function_name, "draft_comment")
        || str_eq(function_name, "remove_draft")
}

/// The tool list of the prompt: `- name: description`, one per line.
pub fn tool_list(tools: &[ToolDescription]) -> (text: String)
    ensures
        text@ == tool_list_text(tools@),
{
    let mut text = String::new();
    let mut i: usize = 0;
    assert(tools@.take(0) =~= Seq::<ToolDescription>::empty());
    while i < tools.len()
        invariant
            i <= tools.len(),
            text@ == tool_list_text(tools@.take(i as int)),
        decreases tools.len() - i,
    {
        assert(tools@.take(i + 1).drop_last() =~= tools@.take(i as int));
        assert(tools@.take(i + 1).last() == tools@[i as int]);
        let ghost before = text@;
        if i > 0 {
            text.append("\n");
        }
        text.append("- ");
        text.append(tools[i].name.as_str());
        text.append(": ");
        text.append(tools[i].description.as_str());
        proof {
            if i == 0 {
                assert(tools@.take(1)[0] == tools@[0]);
                assert(text@ =~= tool_line(tools@[0]));
            } else {
                assert(text@ =~= before + "\n"@ + tool_line(tools@[i as int]));
            }
        }
        i += 1;
    }
    assert(tools@.take(tools.len() as int) =~= tools@);
    text
}

/// The drafting assistant's system prompt: the shared template, committed
/// by typing `/submit`, with the rendered overview, drafts and impact, and
/// the tool list.
pub fn build_system_prompt(
    participant: &str,
    overview: &str,
    drafts: &str,
    impact: &str,
    tools: &[ToolDescription],
) -> (prompt: String)
    ensures
        exists|commit: &str, tool_text: &str|
            commit@ == "typing /submit"@ && tool_text@ == tool_list_text(tools@) && prompt@
                == system_prompt_text(
                SystemPromptInput {
                    participant,
                    commit_instruction: commit,
                    overview,
                    drafts,
                    impact: Some(impact),
                    tools: tool_text,
                },
            ),
{
    let tool_text = tool_list(tools);
    let commit = "typing /submit";
    proof {
        reveal_strlit("typing /submit");
    }
    let input = SystemPromptInput {
        participant,
        commit_instruction: commit,
        overview,
        drafts,
        impact: Some(impact),
        tools: tool_text.as_str(),
    };
    let prompt = system_prompt::build_system_prompt(input);
    prompt
}

fn choose_or(value: &Option<String>, default: &str) -> (text: String)
    ensures
        text@ == or_default(*value, default@),
{
    match value {
        Some(v) => v.clone(),
        None => to_string(default),
    }
}

fn optional_equals(value: &Option<String>, expected: &str) -> (eq: bool)
    ensures
        eq == (value matches Some(v) && v@ == expected@),
{
    match value {
        Some(v) => str_eq(v.as_str(), expected),
        None => false,
    }
}

fn relation_verb_text(kind: &Option<String>) -> (verb: &'static str)
    ensures
        verb@ == relation_verb(*kind),
{
    if optional_equals(kind, "attacks") {
        "challenges"
    } else {
        "supports"
    }
}

fn stance_phrase_text(position: &Option<String>) -> (phrase: &'static str)
    ensures
        phrase@ == stance_phrase(*position),
{
    if optional_equals(position, "consent") {
        "agree with"
    } else if optional_equals(position, "support") {
        "support"
    } else if optional_equals(position, "champion") {
        "strongly back"
    } else if optional_equals(position, "object") {
        "object to"
    } else if optional_equals(position, "block") {
        "block"
    } else if optional_equals(position, "abstain") {
        "abstain on"
    } else if optional_equals(position, "stand_aside") {
        "stand aside on"
    } else {
        "take a position on"
    }
}

fn outcome_word_text(outcome: &Option<String>) -> (word: &'static str)
    ensures
        word@ == outcome_word(*outcome),
{
    if optional_equals(outcome, "accepted") {
        "accepted"
    } else if optional_equals(outcome, "rejected") {
        "rejected"
    } else if optional_equals(outcome, "tabled") {
        "tabled"
    } else if optional_equals(outcome, "withdrawn") {
        "withdrawn"
    } else {
        "resolved"
    }
}

/// The confirmation after the tool `function_name` changed the drafts,
/// in plain words, reminding that the change is only a local draft.
pub fn render_mutation_confirmation(
    function_name: &str,
    arguments: &Option<MutationArguments>,
) -> (text: String)
    ensures
        text@ == confirmation_text(function_name@, *arguments),
{
    let a = match arguments {
        None => {
            return to_string(
                "I've updated the pending draft. It's still only local for now, so we can adjust it before you submit it.",
            );
        },
        Some(a) => a,
    };
    let mut text;
    if str_eq(function_name, "draft_claim") {
        text = to_string("I've prepared a draft for \"");
        let body = choose_or(&a.body, "that idea");
        text.append(body.as_str());
        text.append(
            "\". It's still only a local draft, so we can adjust the wording before you submit it.",
        );
    } else if str_eq(function_name, "draft_relation") {
        text = to_string("I've prepared a draft saying that ");
        let source = choose_or(&a.source, "the first idea");
        text.append(source.as_str());
        text.append(" ");
        text.append(relation_verb_text(&a.kind));
        text.append(" ");
        let target = choose_or(&a.target, "the second idea");
        text.append(target.as_str());
        text.append(
            ". It's still only a local draft, so we can refine that connection before you submit it.",
        );
    } else if str_eq(function_name, "draft_stance") {
        text = to_string("I've noted that you ");
        text.append(stance_phrase_text(&a.position));
        text.append(" ");
        let target = choose_or(&a.target, "that idea");
        text.append(target.as_str());
        text.append(
            ". It's still only a local draft, so we can adjust the strength or wording before you submit it.",
        );
    } else if str_eq(function_name, "draft_resolve") {
        text = to_string("I've prepared a draft to mark ");
        let target = choose_or(&a.claim, "that proposal");
        text.append(target.as_str());
        text.append(" as ");
        text.append(outcome_word_text(&a.outcome));
        text.append(". It's still only a local draft, so we can adjust it before you submit it.");
    } else if str_eq(function_name, "draft_comment") {
        text = to_string("I've prepared a draft note: \"");
        let body = choose_or(&a.body, "that note");
        text.append(body.as_str());
        text.append(
            "\". It's still only a local draft, so we can revise it before you submit it.",
        );
    } else if str_eq(function_name, "remove_draft") {
        text = to_string(
            "I've removed that pending draft. If you want, we can prepare a revised version instead.",
        );
    } else {
        text = to_string(
            "I've updated the pending draft. It's still only local for now, so we can adjust it before you submit it.",
        );
    }
    text
}

/// The assistant's closing message after a round that changed the drafts:
/// the confirmation of the last successful draft change, or a general one.
pub fn synthesize_mutation_follow_up(outcomes: &[ToolOutcome]) -> (message: CompletedAssistantMessage)
    ensures
        message.tool_calls@.len() == 0,
        message.finish_reason == Some(FinishReason::Stop),
        message.content matches Some(c) && c@ == if last_mutation(outcomes@, outcomes@.len() as int)
            >= 0 {
            let o = outcomes@[last_mutation(outcomes@, outcomes@.len() as int)];
            confirmation_text(o.function_name@, o.arguments)
        } else {
            generic_confirmation()
        },
{
    let mut i: usize = outcomes.len();
    while i > 0 && !(outcomes[i - 1].succeeded && is_draft_mutation_tool(
        outcomes[i - 1].function_name.as_str(),
    ))
        invariant
            i <= outcomes.len(),
            last_mutation(outcomes@, outcomes@.len() as int) == last_mutation(outcomes@, i as int),
        decreases i,
    {
        i -= 1;
    }
    let content = if i > 0 {
        let o = &outcomes[i - 1];
        render_mutation_confirmation(o.function_name.as_str(), &o.arguments)
    } else {
        to_string(
            "I've updated the pending draft. It's still only local for now, so we can adjust it before you submit it.",
        )
    };
    let tool_calls: Vec<CompletedToolCall> = Vec::new();
    CompletedAssistantMessage {
        content: Some(content),
        tool_calls,
        finish_reason: Some(FinishReason::Stop),
    }
}

/// How a round goes on once its response is assembled.
#[derive(Debug, PartialEq, Eq)]
pub enum RoundStart {
    /// The message calls no tool: it ends the turn.
    Final(CompletedAssistantMessage),
    /// The message calls tools, but the turn has used all its rounds.
    MaxRoundsExceeded { message: CompletedAssistantMessage, error: String },
    /// The message's tool calls are to be run.
    Dispatch(CompletedAssistantMessage),
}

/// Decide what a round's assembled message leads to: it ends the turn when
/// it calls no tool; with tool calls, round `round` may run them only while
/// it is below `max_rounds`.
pub fn start_round(message: CompletedAssistantMessage, round: usize, max_rounds: usize) -> (start:
    RoundStart)
    ensures
        message.tool_calls@.len() == 0 ==> start == RoundStart::Final(message),
        message.tool_calls@.len() > 0 && round >= max_rounds ==> (start matches RoundStart::MaxRoundsExceeded { message: m, error }
            && m == message && error@ == "max tool rounds ("@ + decimal(max_rounds as nat)
            + ") exceeded"@),
        message.tool_calls@.len() > 0 && round < max_rounds ==> start == RoundStart::Dispatch(message),
{
    if message.tool_calls.len() == 0 {
        return RoundStart::Final(message);
    }
    if round >= max_rounds {
        let mut error = to_string("max tool rounds (");
        append_decimal(&mut error, max_rounds as u64);
        error.append(") exceeded");
        return RoundStart::MaxRoundsExceeded { message, error };
    }
    RoundStart::Dispatch(message)
}

/// The assistant message a round's start carries.
pub open spec fn start_message(start: RoundStart) -> CompletedAssistantMessage {
    match start {
        RoundStart::Final(m) => m,
        RoundStart::MaxRoundsExceeded { message, .. } => message,
        RoundStart::Dispatch(m) => m,
    }
}

/// `start` is what an assembled `message` leads to in round `round` of at
/// most `max_rounds`, as `start_round` decides it.
pub open spec fn round_started(start: RoundStart, message: CompletedAssistantMessage, round: usize, max_rounds: usize) -> bool {
    if message.tool_calls@.len() == 0 {
        start == RoundStart::Final(message)
    } else if round >= max_rounds {
        start matches RoundStart::MaxRoundsExceeded { message: m, error } && m == message && error@
            == "max tool rounds ("@ + decimal(max_rounds as nat) + ") exceeded"@
    } else {
        start == RoundStart::Dispatch(message)
    }
}

/// `r` is how a round goes on from the streamed `chunks`: the assembly
/// error when they do not assemble, else the start of the round with the
/// message they assemble into.
pub open spec fn round_begun(r: Result<RoundStart, ProcessResponseError>, chunks: Seq<StreamChunk>, round: usize, max_rounds: usize) -> bool {
    match r {
        Err(ProcessResponseError(e)) => assembly_of(Err(e), chunks),
        Ok(start) => assembly_of(Ok(start_message(start)), chunks) && round_started(
            start,
            start_message(start),
            round,
            max_rounds,
        ),
    }
}

/// Begin round `round` from the JSON chunks of one streamed response: read
/// each chunk, assemble them into the assistant message, and decide what
/// the message leads to.
pub fn begin_round(values: &[Value], round: usize, max_rounds: usize) -> (r: Result<RoundStart, ProcessResponseError>)
    ensures
        exists|chunks: Seq<StreamChunk>|
            chunks.len() == values@.len() && (forall|i: int|
                0 <= i < chunks.len() ==> chunk_read(#[trigger] chunks[i], values@[i])) && round_begun(
                r,
                chunks,
                round,
                max_rounds,
            ),
{
    let chunks = stream_chunks_of(values);
    let assembled = assemble(chunks.as_slice());
    let r = match assembled {
        Err(e) => Err(ProcessResponseError(e)),
        Ok(message) => Ok(start_round(message, round, max_rounds)),
    };
    assert(round_begun(r, chunks@, round, max_rounds));
    r
}

/// The closing message of a round whose tool calls ran: the confirmation of
/// its last successful draft change, or none when no call changed the
/// drafts and another request is due.
pub fn finish_round(outcomes: &[ToolOutcome]) -> (closing: Option<CompletedAssistantMessage>)
    ensures
        last_mutation(outcomes@, outcomes@.len() as int) < 0 ==> closing is None,
        last_mutation(outcomes@, outcomes@.len() as int) >= 0 ==> (closing matches Some(m) && {
            let o = outcomes@[last_mutation(outcomes@, outcomes@.len() as int)];
            &&& m.tool_calls@.len() == 0
            &&& m.finish_reason == Some(FinishReason::Stop)
            &&& (m.content matches Some(c) && c@ == confirmation_text(o.function_name@, o.arguments))
        }),
{
    let mut i: usize = outcomes.len();
    while i > 0 && !(outcomes[i - 1].succeeded && is_draft_mutation_tool(
        outcomes[i - 1].function_name.as_str(),
    ))
        invariant
            i <= outcomes.len(),
            last_mutation(outcomes@, outcomes@.len() as int) == last_mutation(outcomes@, i as int),
        decreases i,
    {
        i -= 1;
    }
    if i == 0 {
        None
    } else {
        Some(synthesize_mutation_follow_up(outcomes))
    }
}

/// The content of a tool result that failed with `error`.
pub fn error_content(error: &str) -> (content: String)
    ensures
        content@ == "{\"error\":\""@ + error@ + "\"}"@,
{
    let mut content = to_string("{\"error\":\"");
    content.append(error);
    content.append("\"}");
    content
}

/// The dispatch error of a tool call whose arguments are not valid JSON.
pub fn invalid_arguments_error(parse_error: &str) -> (error: String)
    ensures
        error@ == "invalid tool call arguments: "@ + parse_error@,
{
    let mut error = to_string("invalid tool call arguments: ");
    error.append(parse_error);
    error
}

/// A tool call whose arguments are not JSON: the parser's message, the
/// dispatch error recorded for the call, and the tool result the model is
/// sent.
#[derive(Debug, PartialEq, Eq)]
pub struct ArgumentFailure {
    pub parse_error: String,
    pub error: String,
    pub content: String,
}

/// The arguments of a tool call, parsed from their JSON text; when the text
/// is no JSON, how the call fails.
pub fn call_arguments(call: &CompletedToolCall) -> (r: Result<Value, ArgumentFailure>)
    ensures
        match json_from_text(call.arguments_json@) {
            Ok(v) => r matches Ok(p) && p == v,
            Err(m) => r matches Err(f) && {
                &&& f.parse_error@ == m
                &&& f.error@ == "invalid tool call arguments: "@ + m
                &&& f.content@ == "{\"error\":\""@ + f.error@ + "\"}"@
            },
        },
{
    match parse_json_text(call.arguments_json.as_str()) {
        Ok(v) => Ok(v),
        Err(parse_error) => {
            let error = invalid_arguments_error(parse_error.as_str());
            let content = error_content(error.as_str());
            Err(ArgumentFailure { parse_error, error, content })
        },
    }
}

/// Whether `a` and `b` refer to the same claim.
pub open spec fn same_ref(a: ClaimRef, b: ClaimRef) -> bool {
    match (a, b) {
        (ClaimRef::Committed(x), ClaimRef::Committed(y)) => x.0@ == y.0@,
        (ClaimRef::Draft(x), ClaimRef::Draft(y)) => x == y,
        _ => false,
    }
}

/// How a confirmation describes the claim `r`: the quoted body that the
/// first entry of `bodies` for the same claim gives, or "that idea" when
/// no entry is for it.
pub open spec fn described(bodies: Seq<(ClaimRef, String)>, r: ClaimRef) -> Seq<char>
    decreases bodies.len(),
{
    if bodies.len() == 0 {
        "that idea"@
    } else if same_ref(bodies[0].0, r) {
        "\""@ + bodies[0].1@ + "\""@
    } else {
        described(bodies.drop_first(), r)
    }
}

/// `d` describes the argument `member`: nothing when it is absent or names
/// no claim, else the description of the claim it names.
pub open spec fn reference_described(d: Option<String>, member: Option<Value>, bodies: Seq<(ClaimRef, String)>) -> bool {
    match member {
        None => d is None,
        Some(m) => exists|r: Option<ClaimRef>|
            #[trigger] ref_read(r, m) && match r {
                None => d is None,
                Some(c) => d matches Some(t) && t@ == described(bodies, c),
            },
    }
}

fn refs_equal(a: &ClaimRef, b: &ClaimRef) -> (eq: bool)
    ensures
        eq == same_ref(*a, *b),
{
    match (a, b) {
        (ClaimRef::Committed(x), ClaimRef::Committed(y)) => str_eq(x.0.as_str(), y.0.as_str()),
        (ClaimRef::Draft(x), ClaimRef::Draft(y)) => x.0 == y.0,
        _ => false,
    }
}

/// The description of the claim `r`, as `described` says.
pub fn describe_claim(bodies: &[(ClaimRef, String)], r: &ClaimRef) -> (text: String)
    ensures
        text@ == described(bodies@, *r),
{
    let mut i: usize = 0;
    assert(bodies@.skip(0) =~= bodies@);
    while i < bodies.len()
        invariant
            i <= bodies.len(),
            described(bodies@, *r) == described(bodies@.skip(i as int), *r),
        decreases bodies.len() - i,
    {
        assert(bodies@.skip(i as int)[0] == bodies@[i as int]);
        assert(bodies@.skip(i as int).drop_first() =~= bodies@.skip(i + 1));
        if refs_equal(&bodies[i].0, r) {
            let mut text = to_string("\"");
            text.append(bodies[i].1.as_str());
            text.append("\"");
            return text;
        }
        i += 1;
    }
    assert(bodies@.skip(i as int).len() == 0);
    to_string("that idea")
}

fn described_member(arguments: &Value, key: &str, bodies: &[(ClaimRef, String)]) -> (d: Option<String>)
    ensures
        reference_described(d, json_member(*arguments, key@), bodies@),
{
    match member(arguments, key) {
        None => None,
        Some(m) => {
            let r = claim_ref_of_json(m);
            let d = match &r {
                None => None,
                Some(c) => Some(describe_claim(bodies, c)),
            };
            assert(ref_read(r, *m));
            d
        },
    }
}

/// What the confirmation of a draft change says about its parsed
/// `arguments`: the texts of `body`, `kind`, `position` and `outcome`, and
/// for `source`, `target` and `claim` the description of the claim each
/// refers to, `bodies` giving the claims' bodies.
pub fn mutation_arguments(arguments: &Value, bodies: &[(ClaimRef, String)]) -> (a: MutationArguments)
    ensures
        opt_view(a.body) == text_member(*arguments, "body"@),
        opt_view(a.kind) == text_member(*arguments, "kind"@),
        opt_view(a.position) == text_member(*arguments, "position"@),
        opt_view(a.outcome) == text_member(*arguments, "outcome"@),
        reference_described(a.source, json_member(*arguments, "source"@), bodies@),
        reference_described(a.target, json_member(*arguments, "target"@), bodies@),
        reference_described(a.claim, json_member(*arguments, "claim"@), bodies@),
{
    MutationArguments {
        body: owned_text_field(arguments, "body"),
        source: described_member(arguments, "source", bodies),
        target: described_member(arguments, "target", bodies),
        claim: described_member(arguments, "claim", bodies),
        kind: owned_text_field(arguments, "kind"),
        position: owned_text_field(arguments, "position"),
        outcome: owned_text_field(arguments, "outcome"),
    }
}

} // verus!
