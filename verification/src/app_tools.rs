//! The tools the app offers the assistant, and the decoding of a tool call
//! into one of them.
use vstd::prelude::*;

use crate::llm_turn::ToolDescription;
use crate::response::CompletedToolCall;
use crate::strings::{str_eq, to_string};
use crate::tool_schema::{claim_kind_words, outcome_words, position_words, relation_kind_words};
use crate::types::{ClaimId, ClaimKind, ClaimRef, DraftId, Outcome, Position, RelationKind};

verus! {

/// A decoded tool call.
#[derive(Debug, PartialEq, Eq)]
pub enum AppTool {
    Overview,
    ClaimDetail { claim_id: ClaimId },
    ShowDrafts,
    PreviewOverview,
    PreviewClaimDetail { claim: ClaimRef },
    ImpactAnalysis,
    DraftClaim { body: String, kind: ClaimKind, parent: Option<ClaimRef> },
    DraftRelation { source: ClaimRef, target: ClaimRef, kind: RelationKind },
    DraftStance { target: ClaimRef, position: Position },
    DraftResolve { claim: ClaimRef, outcome: Outcome },
    DraftComment { body: String, claim: Option<ClaimRef> },
    RemoveDraft { draft_id: DraftId },
}

/// What kind of mistake a tool call made.
#[derive(Debug, Clone, Copy, PartialEq, Eq, Structural)]
pub enum ToolDecodeErrorKind {
    UnknownTool,
    InvalidJsonArguments,
    MissingRequiredArgument,
    InvalidArgumentValue,
}

/// Why a tool call could not be decoded.
#[derive(Debug, PartialEq, Eq)]
pub struct ToolDecodeError {
    pub kind: ToolDecodeErrorKind,
    pub message: String,
}

/// One argument of a tool call, as the ways the decoder can read it: as a
/// string, as a non-negative integer, and as a claim reference.
#[derive(Debug, PartialEq, Eq)]
pub struct ArgumentValue {
    pub text: Option<String>,
    pub unsigned: Option<u64>,
    pub claim_ref: Option<ClaimRef>,
}

/// The named arguments of a tool call.
#[derive(Debug, PartialEq, Eq)]
pub struct ToolArguments {
    pub fields: Vec<(String, ArgumentValue)>,
}

// ---------------------------------------------------------------------------
// Mathematical model
// ---------------------------------------------------------------------------

/// A decoded tool call, as plain values.
pub enum AppToolView {
    Overview,
    ClaimDetail { claim_id: Seq<char> },
    ShowDrafts,
    PreviewOverview,
    PreviewClaimDetail { claim: ClaimRef },
    ImpactAnalysis,
    DraftClaim { body: Seq<char>, kind: ClaimKind, parent: Option<ClaimRef> },
    DraftRelation { source: ClaimRef, target: ClaimRef, kind: RelationKind },
    DraftStance { target: ClaimRef, position: Position },
    DraftResolve { claim: ClaimRef, outcome: Outcome },
    DraftComment { body: Seq<char>, claim: Option<ClaimRef> },
    RemoveDraft { draft_id: DraftId },
}

impl View for AppTool {
    type V = AppToolView;

    open spec fn view(&self) -> AppToolView {
        match self {
            AppTool::Overview => AppToolView::Overview,
            AppTool::ClaimDetail { claim_id } => AppToolView::ClaimDetail { claim_id: claim_id.0@ },
            AppTool::ShowDrafts => AppToolView::ShowDrafts,
            AppTool::PreviewOverview => AppToolView::PreviewOverview,
            AppTool::PreviewClaimDetail { claim } => AppToolView::PreviewClaimDetail { claim: *claim },
            AppTool::ImpactAnalysis => AppToolView::ImpactAnalysis,
            AppTool::DraftClaim { body, kind, parent } => AppToolView::DraftClaim {
                body: body@,
                kind: *kind,
                parent: *parent,
            },
            AppTool::DraftRelation { source, target, kind } => AppToolView::DraftRelation {
                source: *source,
                target: *target,
                kind: *kind,
            },
            AppTool::DraftStance { target, position } => AppToolView::DraftStance {
                target: *target,
                position: *position,
            },
            AppTool::DraftResolve { claim, outcome } => AppToolView::DraftResolve {
                claim: *claim,
                outcome: *outcome,
            },
            AppTool::DraftComment { body, claim } => AppToolView::DraftComment {
                body: body@,
                claim: *claim,
            },
            AppTool::RemoveDraft { draft_id } => AppToolView::RemoveDraft { draft_id: *draft_id },
        }
    }
}

/// An error as its kind and message.
pub type ErrorView = (ToolDecodeErrorKind, Seq<char>);

pub open spec fn error_view(e: ToolDecodeError) -> ErrorView {
    (e.kind, e.message@)
}

/// The first argument named `field`.
pub open spec fn lookup(fields: Seq<(String, ArgumentValue)>, field: Seq<char>) -> Option<
    ArgumentValue,
>
    decreases fields.len(),
{
    if fields.len() == 0 {
        None
    } else if fields[0].0@ == field {
        Some(fields[0].1)
    } else {
        lookup(fields.drop_first(), field)
    }
}

pub open spec fn missing(field: Seq<char>) -> ErrorView {
    (ToolDecodeErrorKind::MissingRequiredArgument, "missing required argument: "@ + field)
}

pub open spec fn invalid(field: Seq<char>, problem: Seq<char>) -> ErrorView {
    (ToolDecodeErrorKind::InvalidArgumentValue, field + problem)
}

pub open spec fn string_arg(fields: Seq<(String, ArgumentValue)>, field: Seq<char>) -> Result<
    Seq<char>,
    ErrorView,
> {
    match lookup(fields, field) {
        None => Err(missing(field)),
        Some(v) => match v.text {
            Some(t) => Ok(t@),
            None => Err(invalid(field, ": expected a string"@)),
        },
    }
}

pub open spec fn u64_arg(fields: Seq<(String, ArgumentValue)>, field: Seq<char>) -> Result<
    u64,
    ErrorView,
> {
    match lookup(fields, field) {
        None => Err(missing(field)),
        Some(v) => match v.unsigned {
            Some(n) => Ok(n),
            None => Err(invalid(field, ": expected a non-negative integer"@)),
        },
    }
}

pub open spec fn claim_ref_problem() -> Seq<char> {
    ": expected a claim reference string (claim:<id>, draft:<n>, #<n>) or an object with exactly one of claim_id or draft_id"@
}

pub open spec fn claim_ref_of(value: ArgumentValue, field: Seq<char>) -> Result<ClaimRef, ErrorView> {
    match value.claim_ref {
        Some(r) => Ok(r),
        None => Err(invalid(field, claim_ref_problem())),
    }
}

pub open spec fn claim_ref_arg(fields: Seq<(String, ArgumentValue)>, field: Seq<char>) -> Result<
    ClaimRef,
    ErrorView,
> {
    match lookup(fields, field) {
        None => Err(missing(field)),
        Some(v) => claim_ref_of(v, field),
    }
}

pub open spec fn optional_claim_ref_arg(fields: Seq<(String, ArgumentValue)>, field: Seq<char>) -> Result<
    Option<ClaimRef>,
    ErrorView,
> {
    match lookup(fields, field) {
        None => Ok(None),
        Some(v) => match claim_ref_of(v, field) {
            Ok(r) => Ok(Some(r)),
            Err(e) => Err(e),
        },
    }
}

pub open spec fn claim_kind_named(name: Seq<char>) -> Option<ClaimKind> {
    if name == "item"@ {
        Some(ClaimKind::Item)
    } else if name == "proposal"@ {
        Some(ClaimKind::Proposal)
    } else if name == "fact"@ {
        Some(ClaimKind::Fact)
    } else if name == "conditional"@ {
        Some(ClaimKind::Conditional)
    } else if name == "value"@ {
        Some(ClaimKind::Value)
    } else if name == "reference"@ {
        Some(ClaimKind::Reference)
    } else {
        None
    }
}

pub open spec fn relation_kind_named(name: Seq<char>) -> Option<RelationKind> {
    if name == "attacks"@ {
        Some(RelationKind::Attacks)
    } else if name == "supports"@ {
        Some(RelationKind::Supports)
    } else {
        None
    }
}

pub open spec fn position_named(name: Seq<char>) -> Option<Position> {
    if name == "block"@ {
        Some(Position::Block)
    } else if name == "object"@ {
        Some(Position::Object)
    } else if name == "stand_aside"@ {
        Some(Position::StandAside)
    } else if name == "abstain"@ {
        Some(Position::Abstain)
    } else if name == "consent"@ {
        Some(Position::Consent)
    } else if name == "support"@ {
        Some(Position::Support)
    } else if name == "champion"@ {
        Some(Position::Champion)
    } else {
        None
    }
}

pub open spec fn outcome_named(name: Seq<char>) -> Option<Outcome> {
    if name == "accepted"@ {
        Some(Outcome::Accepted)
    } else if name == "rejected"@ {
        Some(Outcome::Rejected)
    } else if name == "tabled"@ {
        Some(Outcome::Tabled)
    } else if name == "withdrawn"@ {
        Some(Outcome::Withdrawn)
    } else {
        None
    }
}

/// The position names that the tool schema offers decode one to one: each
/// decodes to a position, distinct names to distinct positions, the position of
/// rank `r` is the decoding of the `r`-th name, and no other text decodes.
pub proof fn lemma_position_names_decode_one_to_one()
    ensures
        forall|i: int| 0 <= i < position_words().len() ==> #[trigger] position_named(position_words()[i]) is Some,
        forall|i: int, j: int|
            0 <= i < j < position_words().len() ==> #[trigger] position_named(position_words()[i])
                != #[trigger] position_named(position_words()[j]),
        forall|p: Position| position_named(position_words()[#[trigger] p.rank() as int]) == Some(p),
        forall|n: Seq<char>| #[trigger] position_named(n) is Some ==> position_words().contains(n),
{
    reveal_strlit("block");
    reveal_strlit("object");
    reveal_strlit("stand_aside");
    reveal_strlit("abstain");
    reveal_strlit("consent");
    reveal_strlit("support");
    reveal_strlit("champion");
    let w = position_words();
    assert(w[0].len() == 5 && w[0][0] == 'b' && w[0][1] == 'l');
    assert(w[1].len() == 6 && w[1][0] == 'o' && w[1][1] == 'b');
    assert(w[2].len() == 11 && w[2][0] == 's' && w[2][1] == 't');
    assert(w[3].len() == 7 && w[3][0] == 'a' && w[3][1] == 'b');
    assert(w[4].len() == 7 && w[4][0] == 'c' && w[4][1] == 'o');
    assert(w[5].len() == 7 && w[5][0] == 's' && w[5][1] == 'u');
    assert(w[6].len() == 8 && w[6][0] == 'c' && w[6][1] == 'h');
    assert(position_named(w[0]) == Some(Position::Block));
    assert(position_named(w[1]) == Some(Position::Object));
    assert(position_named(w[2]) == Some(Position::StandAside));
    assert(position_named(w[3]) == Some(Position::Abstain));
    assert(position_named(w[4]) == Some(Position::Consent));
    assert(position_named(w[5]) == Some(Position::Support));
    assert(position_named(w[6]) == Some(Position::Champion));
    assert forall|n: Seq<char>| #[trigger] position_named(n) is Some implies w.contains(n) by {
        if n == "block"@ { assert(w[0] == n); }
        else if n == "object"@ { assert(w[1] == n); }
        else if n == "stand_aside"@ { assert(w[2] == n); }
        else if n == "abstain"@ { assert(w[3] == n); }
        else if n == "consent"@ { assert(w[4] == n); }
        else if n == "support"@ { assert(w[5] == n); }
        else { assert(w[6] == n); }
    }
}

/// The outcome names that the tool schema offers decode one to one: each
/// decodes to an outcome, distinct names to distinct outcomes, and no other text decodes.
pub proof fn lemma_outcome_names_decode_one_to_one()
    ensures
        forall|i: int| 0 <= i < outcome_words().len() ==> #[trigger] outcome_named(outcome_words()[i]) is Some,
        forall|i: int, j: int|
            0 <= i < j < outcome_words().len() ==> #[trigger] outcome_named(outcome_words()[i])
                != #[trigger] outcome_named(outcome_words()[j]),
        forall|n: Seq<char>| #[trigger] outcome_named(n) is Some ==> outcome_words().contains(n),
{
    reveal_strlit("accepted");
    reveal_strlit("rejected");
    reveal_strlit("tabled");
    reveal_strlit("withdrawn");
    let w = outcome_words();
    assert(w[0].len() == 8 && w[0][0] == 'a' && w[0][1] == 'c');
    assert(w[1].len() == 8 && w[1][0] == 'r' && w[1][1] == 'e');
    assert(w[2].len() == 6 && w[2][0] == 't' && w[2][1] == 'a');
    assert(w[3].len() == 9 && w[3][0] == 'w' && w[3][1] == 'i');
    assert(outcome_named(w[0]) == Some(Outcome::Accepted));
    assert(outcome_named(w[1]) == Some(Outcome::Rejected));
    assert(outcome_named(w[2]) == Some(Outcome::Tabled));
    assert(outcome_named(w[3]) == Some(Outcome::Withdrawn));
    assert forall|n: Seq<char>| #[trigger] outcome_named(n) is Some implies w.contains(n) by {
        if n == "accepted"@ { assert(w[0] == n); }
        else if n == "rejected"@ { assert(w[1] == n); }
        else if n == "tabled"@ { assert(w[2] == n); }
        else { assert(w[3] == n); }
    }
}

/// The relation kind names that the tool schema offers decode one to one
/// onto the relation kinds, and no other text decodes.
pub proof fn lemma_relation_kind_names_decode_one_to_one()
    ensures
        relation_kind_named(relation_kind_words()[0]) == Some(RelationKind::Attacks),
        relation_kind_named(relation_kind_words()[1]) == Some(RelationKind::Supports),
        relation_kind_words().len() == 2,
        forall|n: Seq<char>| #[trigger] relation_kind_named(n) is Some ==> relation_kind_words().contains(n),
{
    reveal_strlit("attacks");
    reveal_strlit("supports");
    let w = relation_kind_words();
    assert(w[0].len() == 7 && w[0][0] == 'a' && w[0][1] == 't');
    assert(w[1].len() == 8 && w[1][0] == 's' && w[1][1] == 'u');
    assert forall|n: Seq<char>| #[trigger] relation_kind_named(n) is Some implies w.contains(n) by {
        if n == "attacks"@ { assert(w[0] == n); } else { assert(w[1] == n); }
    }
}

/// The claim kind names that the tool schema offers decode one to one:
/// each decodes to a claim kind, distinct names to distinct kinds, and no other text decodes.
pub proof fn lemma_claim_kind_names_decode_one_to_one()
    ensures
        forall|i: int| 0 <= i < claim_kind_words().len() ==> #[trigger] claim_kind_named(claim_kind_words()[i]) is Some,
        forall|i: int, j: int|
            0 <= i < j < claim_kind_words().len() ==> #[trigger] claim_kind_named(claim_kind_words()[i])
                != #[trigger] claim_kind_named(claim_kind_words()[j]),
        forall|n: Seq<char>| #[trigger] claim_kind_named(n) is Some ==> claim_kind_words().contains(n),
{
    reveal_strlit("item");
    reveal_strlit("proposal");
    reveal_strlit("fact");
    reveal_strlit("conditional");
    reveal_strlit("value");
    reveal_strlit("reference");
    let w = claim_kind_words();
    assert(w[0].len() == 4 && w[0][0] == 'i' && w[0][1] == 't');
    assert(w[1].len() == 8 && w[1][0] == 'p' && w[1][1] == 'r');
    assert(w[2].len() == 4 && w[2][0] == 'f' && w[2][1] == 'a');
    assert(w[3].len() == 11 && w[3][0] == 'c' && w[3][1] == 'o');
    assert(w[4].len() == 5 && w[4][0] == 'v' && w[4][1] == 'a');
    assert(w[5].len() == 9 && w[5][0] == 'r' && w[5][1] == 'e');
    assert(claim_kind_named(w[0]) == Some(ClaimKind::Item));
    assert(claim_kind_named(w[1]) == Some(ClaimKind::Proposal));
    assert(claim_kind_named(w[2]) == Some(ClaimKind::Fact));
    assert(claim_kind_named(w[3]) == Some(ClaimKind::Conditional));
    assert(claim_kind_named(w[4]) == Some(ClaimKind::Value));
    assert(claim_kind_named(w[5]) == Some(ClaimKind::Reference));
    assert forall|n: Seq<char>| #[trigger] claim_kind_named(n) is Some implies w.contains(n) by {
        if n == "item"@ { assert(w[0] == n); }
        else if n == "proposal"@ { assert(w[1] == n); }
        else if n == "fact"@ { assert(w[2] == n); }
        else if n == "conditional"@ { assert(w[3] == n); }
        else if n == "value"@ { assert(w[4] == n); }
        else { assert(w[5] == n); }
    }
}

/// A string argument that must name one of a fixed set of values.
pub open spec fn named_arg<T>(
    fields: Seq<(String, ArgumentValue)>,
    field: Seq<char>,
    named: spec_fn(Seq<char>) -> Option<T>,
    what: Seq<char>,
) -> Result<T, ErrorView> {
    match string_arg(fields, field) {
        Err(e) => Err(e),
        Ok(name) => match named(name) {
            Some(v) => Ok(v),
            None => Err(invalid(field, ": unknown "@ + what + " '"@ + name + "'"@)),
        },
    }
}

/// What a tool call decodes to.
pub open spec fn decoded(call_type: Seq<char>, name: Seq<char>, arguments: Result<ToolArguments, Seq<char>>) -> Result<
    AppToolView,
    ErrorView,
> {
    if call_type != "function"@ {
        Err((ToolDecodeErrorKind::InvalidArgumentValue, "unsupported tool call type: "@ + call_type))
    } else {
        match arguments {
            Err(problem) => Err(
                (ToolDecodeErrorKind::InvalidJsonArguments, "invalid tool call arguments: "@ + problem),
            ),
            Ok(args) => {
                let f = args.fields@;
                if name == "overview"@ {
                    Ok(AppToolView::Overview)
                } else if name == "claim_detail"@ {
                    match string_arg(f, "claim_id"@) {
                        Ok(id) => Ok(AppToolView::ClaimDetail { claim_id: id }),
                        Err(e) => Err(e),
                    }
                } else if name == "show_drafts"@ {
                    Ok(AppToolView::ShowDrafts)
                } else if name == "preview_overview"@ {
                    Ok(AppToolView::PreviewOverview)
                } else if name == "preview_claim_detail"@ {
                    match claim_ref_arg(f, "claim"@) {
                        Ok(claim) => Ok(AppToolView::PreviewClaimDetail { claim }),
                        Err(e) => Err(e),
                    }
                } else if name == "impact_analysis"@ {
                    Ok(AppToolView::ImpactAnalysis)
                } else if name == "draft_claim"@ {
                    match string_arg(f, "body"@) {
                        Err(e) => Err(e),
                        Ok(body) => match named_arg(f, "kind"@, |n| claim_kind_named(n), "claim kind"@) {
                            Err(e) => Err(e),
                            Ok(kind) => match optional_claim_ref_arg(f, "parent"@) {
                                Err(e) => Err(e),
                                Ok(parent) => Ok(AppToolView::DraftClaim { body, kind, parent }),
                            },
                        },
                    }
                } else if name == "draft_relation"@ {
                    match claim_ref_arg(f, "source"@) {
                        Err(e) => Err(e),
                        Ok(source) => match claim_ref_arg(f, "target"@) {
                            Err(e) => Err(e),
                            Ok(target) => match named_arg(
                                f,
                                "kind"@,
                                |n| relation_kind_named(n),
                                "relation kind"@,
                            ) {
                                Err(e) => Err(e),
                                Ok(kind) => Ok(AppToolView::DraftRelation { source, target, kind }),
                            },
                        },
                    }
                } else if name == "draft_stance"@ {
                    match claim_ref_arg(f, "target"@) {
                        Err(e) => Err(e),
                        Ok(target) => match named_arg(f, "position"@, |n| position_named(n), "position"@) {
                            Err(e) => Err(e),
                            Ok(position) => Ok(AppToolView::DraftStance { target, position }),
                        },
                    }
                } else if name == "draft_resolve"@ {
                    match claim_ref_arg(f, "claim"@) {
                        Err(e) => Err(e),
                        Ok(claim) => match named_arg(f, "outcome"@, |n| outcome_named(n), "outcome"@) {
                            Err(e) => Err(e),
                            Ok(outcome) => Ok(AppToolView::DraftResolve { claim, outcome }),
                        },
                    }
                } else if name == "draft_comment"@ {
                    match string_arg(f, "body"@) {
                        Err(e) => Err(e),
                        Ok(body) => match optional_claim_ref_arg(f, "claim"@) {
                            Err(e) => Err(e),
                            Ok(claim) => Ok(AppToolView::DraftComment { body, claim }),
                        },
                    }
                } else if name == "remove_draft"@ {
                    match u64_arg(f, "draft_id"@) {
                        Err(e) => Err(e),
                        Ok(n) => Ok(AppToolView::RemoveDraft { draft_id: DraftId(n) }),
                    }
                } else {
                    Err((ToolDecodeErrorKind::UnknownTool, "unknown tool: "@ + name))
                }
            },
        }
    }
}

// ---------------------------------------------------------------------------
// Executable code
// ---------------------------------------------------------------------------

impl ToolDecodeError {
    /// The error's message.
    pub fn text(&self) -> (text: &str)
        ensures
            text@ == self.message@,
    {
        self.message.as_str()
    }
}

fn error(kind: ToolDecodeErrorKind, prefix: &str, detail: &str) -> (e: ToolDecodeError)
    ensures
        error_view(e) == (kind, prefix@ + detail@),
{
    let mut message = to_string(prefix);
    message.append(detail);
    ToolDecodeError { kind, message }
}

fn invalid_error(field: &str, problem: &str) -> (e: ToolDecodeError)
    ensures
        error_view(e) == invalid(field@, problem@),
{
    let mut message = to_string(field);
    message.append(problem);
    ToolDecodeError { kind: ToolDecodeErrorKind::InvalidArgumentValue, message }
}

/// The first argument named `field`.
pub fn require_value<'a>(args: &'a ToolArguments, field: &str) -> (found: Result<&'a ArgumentValue, ToolDecodeError>)
    ensures
        match lookup(args.fields@, field@) {
            Some(v) => found matches Ok(w) && *w == v,
            None => found matches Err(e) && error_view(e) == missing(field@),
        },
{
    let mut i: usize = 0;
    assert(args.fields@.skip(0) =~= args.fields@);
    while i < args.fields.len()
        invariant
            i <= args.fields@.len(),
            lookup(args.fields@, field@) == lookup(args.fields@.skip(i as int), field@),
        decreases args.fields.len() - i,
    {
        assert(args.fields@.skip(i as int)[0] == args.fields@[i as int]);
        if str_eq(args.fields[i].0.as_str(), field) {
            return Ok(&args.fields[i].1);
        }
        assert(args.fields@.skip(i as int).drop_first() =~= args.fields@.skip(i + 1));
        i += 1;
    }
    Err(error(ToolDecodeErrorKind::MissingRequiredArgument, "missing required argument: ", field))
}

/// The string argument `field`.
pub fn require_string<'a>(args: &'a ToolArguments, field: &str) -> (found: Result<&'a str, ToolDecodeError>)
    ensures
        match string_arg(args.fields@, field@) {
            Ok(t) => found matches Ok(s) && s@ == t,
            Err(ev) => found matches Err(e) && error_view(e) == ev,
        },
{
    let value = require_value(args, field)?;
    match &value.text {
        Some(t) => Ok(t.as_str()),
        None => Err(invalid_error(field, ": expected a string")),
    }
}

/// The non-negative integer argument `field`.
pub fn require_u64(args: &ToolArguments, field: &str) -> (found: Result<u64, ToolDecodeError>)
    ensures
        match u64_arg(args.fields@, field@) {
            Ok(n) => found == Ok::<u64, ToolDecodeError>(n),
            Err(ev) => found matches Err(e) && error_view(e) == ev,
        },
{
    let value = require_value(args, field)?;
    match value.unsigned {
        Some(n) => Ok(n),
        None => Err(invalid_error(field, ": expected a non-negative integer")),
    }
}

/// The claim reference that the argument `field` holds.
pub fn parse_claim_ref(value: &ArgumentValue, field: &str) -> (found: Result<ClaimRef, ToolDecodeError>)
    ensures
        match claim_ref_of(*value, field@) {
            Ok(r) => found == Ok::<ClaimRef, ToolDecodeError>(r),
            Err(ev) => found matches Err(e) && error_view(e) == ev,
        },
{
    match &value.claim_ref {
        Some(r) => Ok(r.clone()),
        None => Err(
            invalid_error(
                field,
                ": expected a claim reference string (claim:<id>, draft:<n>, #<n>) or an object with exactly one of claim_id or draft_id",
            ),
        ),
    }
}

/// The claim reference argument `field`.
pub fn require_claim_ref(args: &ToolArguments, field: &str) -> (found: Result<ClaimRef, ToolDecodeError>)
    ensures
        match claim_ref_arg(args.fields@, field@) {
            Ok(r) => found == Ok::<ClaimRef, ToolDecodeError>(r),
            Err(ev) => found matches Err(e) && error_view(e) == ev,
        },
{
    let value = require_value(args, field)?;
    parse_claim_ref(value, field)
}

/// The claim reference argument `field`, when it is given.
pub fn optional_claim_ref(args: &ToolArguments, field: &str) -> (found: Result<Option<ClaimRef>, ToolDecodeError>)
    ensures
        match optional_claim_ref_arg(args.fields@, field@) {
            Ok(r) => found == Ok::<Option<ClaimRef>, ToolDecodeError>(r),
            Err(ev) => found matches Err(e) && error_view(e) == ev,
        },
{
    match require_value(args, field) {
        Err(_) => Ok(None),
        Ok(value) => {
            let r = parse_claim_ref(value, field)?;
            Ok(Some(r))
        },
    }
}

fn unknown_name(field: &str, what: &str, name: &str) -> (e: ToolDecodeError)
    ensures
        error_view(e) == invalid(field@, ": unknown "@ + what@ + " '"@ + name@ + "'"@),
{
    let mut message = to_string(field);
    message.append(": unknown ");
    message.append(what);
    message.append(" '");
    message.append(name);
    message.append("'");
    ToolDecodeError { kind: ToolDecodeErrorKind::InvalidArgumentValue, message }
}

/// The claim kind that the argument `field` names.
pub fn require_claim_kind(args: &ToolArguments, field: &str) -> (found: Result<ClaimKind, ToolDecodeError>)
    ensures
        match named_arg(args.fields@, field@, |n| claim_kind_named(n), "claim kind"@) {
            Ok(k) => found == Ok::<ClaimKind, ToolDecodeError>(k),
            Err(ev) => found matches Err(e) && error_view(e) == ev,
        },
{
    let name = require_string(args, field)?;
    if str_eq(name, "item") {
        Ok(ClaimKind::Item)
    } else if str_eq(name, "proposal") {
        Ok(ClaimKind::Proposal)
    } else if str_eq(name, "fact") {
        Ok(ClaimKind::Fact)
    } else if str_eq(name, "conditional") {
        Ok(ClaimKind::Conditional)
    } else if str_eq(name, "value") {
        Ok(ClaimKind::Value)
    } else if str_eq(name, "reference") {
        Ok(ClaimKind::Reference)
    } else {
        Err(unknown_name(field, "claim kind", name))
    }
}

/// The relation kind that the argument `field` names.
pub fn require_relation_kind(args: &ToolArguments, field: &str) -> (found: Result<RelationKind, ToolDecodeError>)
    ensures
        match named_arg(args.fields@, field@, |n| relation_kind_named(n), "relation kind"@) {
            Ok(k) => found == Ok::<RelationKind, ToolDecodeError>(k),
            Err(ev) => found matches Err(e) && error_view(e) == ev,
        },
{
    let name = require_string(args, field)?;
    if str_eq(name, "attacks") {
        Ok(RelationKind::Attacks)
    } else if str_eq(name, "supports") {
        Ok(RelationKind::Supports)
    } else {
        Err(unknown_name(field, "relation kind", name))
    }
}

/// The position that the argument `field` names.
pub fn require_position(args: &ToolArguments, field: &str) -> (found: Result<Position, ToolDecodeError>)
    ensures
        match named_arg(args.fields@, field@, |n| position_named(n), "position"@) {
            Ok(p) => found == Ok::<Position, ToolDecodeError>(p),
            Err(ev) => found matches Err(e) && error_view(e) == ev,
        },
{
    let name = require_string(args, field)?;
    if str_eq(name, "block") {
        Ok(Position::Block)
    } else if str_eq(name, "object") {
        Ok(Position::Object)
    } else if str_eq(name, "stand_aside") {
        Ok(Position::StandAside)
    } else if str_eq(name, "abstain") {
        Ok(Position::Abstain)
    } else if str_eq(name, "consent") {
        Ok(Position::Consent)
    } else if str_eq(name, "support") {
        Ok(Position::Support)
    } else if str_eq(name, "champion") {
        Ok(Position::Champion)
    } else {
        Err(unknown_name(field, "position", name))
    }
}

/// The outcome that the argument `field` names.
pub fn require_outcome(args: &ToolArguments, field: &str) -> (found: Result<Outcome, ToolDecodeError>)
    ensures
        match named_arg(args.fields@, field@, |n| outcome_named(n), "outcome"@) {
            Ok(o) => found == Ok::<Outcome, ToolDecodeError>(o),
            Err(ev) => found matches Err(e) && error_view(e) == ev,
        },
{
    let name = require_string(args, field)?;
    if str_eq(name, "accepted") {
        Ok(Outcome::Accepted)
    } else if str_eq(name, "rejected") {
        Ok(Outcome::Rejected)
    } else if str_eq(name, "tabled") {
        Ok(Outcome::Tabled)
    } else if str_eq(name, "withdrawn") {
        Ok(Outcome::Withdrawn)
    } else {
        Err(unknown_name(field, "outcome", name))
    }
}

pub open spec fn arguments_view(arguments: Result<ToolArguments, String>) -> Result<ToolArguments, Seq<char>> {
    match arguments {
        Ok(args) => Ok(args),
        Err(problem) => Err(problem@),
    }
}

/// Decode a tool call. `arguments` are the call's arguments as read from
/// its JSON text, or the reason that text is not valid JSON.
pub fn decode_tool_call(call: &CompletedToolCall, arguments: &Result<ToolArguments, String>) -> (result: Result<
    AppTool,
    ToolDecodeError,
>)
    ensures
        match decoded(call.call_type@, call.function_name@, arguments_view(*arguments)) {
            Ok(v) => result matches Ok(t) && t@ == v,
            Err(ev) => result matches Err(e) && error_view(e) == ev,
        },
{
    if !str_eq(call.call_type.as_str(), "function") {
        return Err(
            error(
                ToolDecodeErrorKind::InvalidArgumentValue,
                "unsupported tool call type: ",
                call.call_type.as_str(),
            ),
        );
    }
    let args = match arguments {
        Err(problem) => {
            return Err(
                error(
                    ToolDecodeErrorKind::InvalidJsonArguments,
                    "invalid tool call arguments: ",
                    problem.as_str(),
                ),
            );
        },
        Ok(args) => args,
    };
    let name = call.function_name.as_str();
    if str_eq(name, "overview") {
        Ok(AppTool::Overview)
    } else if str_eq(name, "claim_detail") {
        let id = require_string(args, "claim_id")?;
        Ok(AppTool::ClaimDetail { claim_id: ClaimId(to_string(id)) })
    } else if str_eq(name, "show_drafts") {
        Ok(AppTool::ShowDrafts)
    } else if str_eq(name, "preview_overview") {
        Ok(AppTool::PreviewOverview)
    } else if str_eq(name, "preview_claim_detail") {
        let claim = require_claim_ref(args, "claim")?;
        Ok(AppTool::PreviewClaimDetail { claim })
    } else if str_eq(name, "impact_analysis") {
        Ok(AppTool::ImpactAnalysis)
    } else if str_eq(name, "draft_claim") {
        let body = require_string(args, "body")?;
        let kind = require_claim_kind(args, "kind")?;
        let parent = optional_claim_ref(args, "parent")?;
        Ok(AppTool::DraftClaim { body: to_string(body), kind, parent })
    } else if str_eq(name, "draft_relation") {
        let source = require_claim_ref(args, "source")?;
        let target = require_claim_ref(args, "target")?;
        let kind = require_relation_kind(args, "kind")?;
        Ok(AppTool::DraftRelation { source, target, kind })
    } else if str_eq(name, "draft_stance") {
        let target = require_claim_ref(args, "target")?;
        let position = require_position(args, "position")?;
        Ok(AppTool::DraftStance { target, position })
    } else if str_eq(name, "draft_resolve") {
        let claim = require_claim_ref(args, "claim")?;
        let outcome = require_outcome(args, "outcome")?;
        Ok(AppTool::DraftResolve { claim, outcome })
    } else if str_eq(name, "draft_comment") {
        let body = require_string(args, "body")?;
        let claim = optional_claim_ref(args, "claim")?;
        Ok(AppTool::DraftComment { body: to_string(body), claim })
    } else if str_eq(name, "remove_draft") {
        let n = require_u64(args, "draft_id")?;
        Ok(AppTool::RemoveDraft { draft_id: DraftId(n) })
    } else {
        Err(error(ToolDecodeErrorKind::UnknownTool, "unknown tool: ", name))
    }
}

/// The tools offered to the assistant, by name and description, in the
/// order they are listed.
pub open spec fn tool_catalog() -> Seq<(Seq<char>, Seq<char>)> {
    seq![
        ("overview"@, "Get a high-level overview of the current deliberation state including claims, proposals, stances, and attention signals."@),
        ("claim_detail"@, "Get detailed information about a specific committed claim including its relations, stances, and epistemic status. Prefer this for exact factual questions, then answer in plain language rather than log jargon."@),
        ("draft_claim"@, "Record a new idea for later human review and submission on behalf of the current participant. The author is derived from the active participant automatically. In your follow-up, describe the idea naturally rather than naming internal log types unless the participant already used them."@),
        ("draft_relation"@, "Record that one idea supports or attacks another on behalf of the current participant. References may target either committed claims or locally drafted claims. In conversation, explain the connection naturally rather than talking about graph edges or relation objects. If the participant refers to a concern or risk indirectly, inspect or clarify before choosing source and target."@),
        ("draft_stance"@, "Record the participant's own degree of agreement or disagreement with an idea, but only when they clearly want that view noted down now rather than merely thinking out loud. Use the weakest matching stance: consent for simple agreement, support for positive support without ownership, champion only for strong advocacy or leadership. In conversation, phrase this naturally, for example as noting agreement or objection."@),
        ("draft_resolve"@, "Record a proposed resolution for an idea on behalf of the current participant. In conversation, describe the decision plainly rather than using internal workflow jargon unless the participant asks for it."@),
        ("draft_comment"@, "Record a concrete freeform note for the shared log on behalf of the current participant, optionally attached to a specific claim. Do not use this for advice, hypotheticals, or as a placeholder when the user is still exploring what they mean."@),
        ("show_drafts"@, "Show all pending draft entries that have not yet been submitted. Use when you need to inspect or revise the current draft buffer, not after every mutation."@),
        ("remove_draft"@, "Remove a specific draft by its ID."@),
        ("preview_overview"@, "Show the overview that would result if the current local drafts were committed right now."@),
        ("preview_claim_detail"@, "Show the detailed view that would result for a claim if the current local drafts were committed right now."@),
        ("impact_analysis"@, "Show what structural changes the current local drafts would cause if committed now, including new claims and status changes."@),
    ]
}

pub open spec fn tool_entries(tools: Seq<ToolDescription>) -> Seq<(Seq<char>, Seq<char>)> {
    tools.map_values(|t: ToolDescription| (t.name@, t.description@))
}

fn push_tool(tools: &mut Vec<ToolDescription>, name: &str, description: &str)
    ensures
        tool_entries(final(tools)@) == tool_entries(old(tools)@).push((name@, description@)),
{
    let ghost before = tools@;
    tools.push(ToolDescription { name: to_string(name), description: to_string(description) });
    assert(tool_entries(tools@) =~= tool_entries(before).push((name@, description@)));
}

/// The tools the app offers the assistant, by name and description.
pub fn tool_descriptions() -> (tools: Vec<ToolDescription>)
    ensures
        tool_entries(tools@) == tool_catalog(),
{
    let mut tools: Vec<ToolDescription> = Vec::new();
    assert(tool_entries(tools@) =~= Seq::<(Seq<char>, Seq<char>)>::empty());
    push_tool(&mut tools, "overview", "Get a high-level overview of the current deliberation state including claims, proposals, stances, and attention signals.");
    push_tool(&mut tools, "claim_detail", "Get detailed information about a specific committed claim including its relations, stances, and epistemic status. Prefer this for exact factual questions, then answer in plain language rather than log jargon.");
    push_tool(&mut tools, "draft_claim", "Record a new idea for later human review and submission on behalf of the current participant. The author is derived from the active participant automatically. In your follow-up, describe the idea naturally rather than naming internal log types unless the participant already used them.");
    push_tool(&mut tools, "draft_relation", "Record that one idea supports or attacks another on behalf of the current participant. References may target either committed claims or locally drafted claims. In conversation, explain the connection naturally rather than talking about graph edges or relation objects. If the participant refers to a concern or risk indirectly, inspect or clarify before choosing source and target.");
    push_tool(&mut tools, "draft_stance", "Record the participant's own degree of agreement or disagreement with an idea, but only when they clearly want that view noted down now rather than merely thinking out loud. Use the weakest matching stance: consent for simple agreement, support for positive support without ownership, champion only for strong advocacy or leadership. In conversation, phrase this naturally, for example as noting agreement or objection.");
    push_tool(&mut tools, "draft_resolve", "Record a proposed resolution for an idea on behalf of the current participant. In conversation, describe the decision plainly rather than using internal workflow jargon unless the participant asks for it.");
    push_tool(&mut tools, "draft_comment", "Record a concrete freeform note for the shared log on behalf of the current participant, optionally attached to a specific claim. Do not use this for advice, hypotheticals, or as a placeholder when the user is still exploring what they mean.");
    push_tool(&mut tools, "show_drafts", "Show all pending draft entries that have not yet been submitted. Use when you need to inspect or revise the current draft buffer, not after every mutation.");
    push_tool(&mut tools, "remove_draft", "Remove a specific draft by its ID.");
    push_tool(&mut tools, "preview_overview", "Show the overview that would result if the current local drafts were committed right now.");
    push_tool(&mut tools, "preview_claim_detail", "Show the detailed view that would result for a claim if the current local drafts were committed right now.");
    push_tool(&mut tools, "impact_analysis", "Show what structural changes the current local drafts would cause if committed now, including new claims and status changes.");
    assert(tool_entries(tools@) =~= tool_catalog());
    tools
}

} // verus!
