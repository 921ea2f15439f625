//! The arguments each app tool takes, as the assistant is told about them:
//! every argument's name, what kind of value it holds and what it means,
//! and which arguments are required.
use vstd::prelude::*;

use crate::strings::{str_eq, to_string};

verus! {

/// What kind of value an argument holds.
#[derive(Debug, PartialEq, Eq)]
pub enum ParameterKind {
    /// Free text.
    Text,
    /// A number.
    Number,
    /// One of the listed words.
    Choice(Vec<String>),
    /// A claim reference, written `claim:<id>` or `draft:<id>`.
    ClaimReference,
}

/// One argument of a tool.
#[derive(Debug, PartialEq, Eq)]
pub struct ToolParameter {
    pub name: String,
    pub kind: ParameterKind,
    pub description: String,
}

/// The arguments of a tool, in the order they are listed, and the names of
/// those that must be given.
#[derive(Debug, PartialEq, Eq)]
pub struct ToolParameters {
    pub properties: Vec<ToolParameter>,
    pub required: Vec<String>,
}

/// The kind of an argument, with its words taken by value.
pub enum ParameterKindView {
    Text,
    Number,
    Choice(Seq<Seq<char>>),
    ClaimReference,
}

pub open spec fn texts(words: Seq<String>) -> Seq<Seq<char>> {
    words.map_values(|w: String| w@)
}

pub open spec fn kind_view(kind: ParameterKind) -> ParameterKindView {
    match kind {
        ParameterKind::Text => ParameterKindView::Text,
        ParameterKind::Number => ParameterKindView::Number,
        ParameterKind::Choice(words) => ParameterKindView::Choice(texts(words@)),
        ParameterKind::ClaimReference => ParameterKindView::ClaimReference,
    }
}

/// An argument as its name, kind and description.
pub type ParameterView = (Seq<char>, ParameterKindView, Seq<char>);

pub open spec fn parameter_view(p: ToolParameter) -> ParameterView {
    (p.name@, kind_view(p.kind), p.description@)
}

/// A tool's arguments and required names.
pub open spec fn parameters_view(p: ToolParameters) -> (Seq<ParameterView>, Seq<Seq<char>>) {
    (p.properties@.map_values(|q: ToolParameter| parameter_view(q)), texts(p.required@))
}

pub open spec fn claim_kind_words() -> Seq<Seq<char>> {
    seq!["item"@, "proposal"@, "fact"@, "conditional"@, "value"@, "reference"@]
}

pub open spec fn relation_kind_words() -> Seq<Seq<char>> {
    seq!["attacks"@, "supports"@]
}

pub open spec fn position_words() -> Seq<Seq<char>> {
    seq!["block"@, "object"@, "stand_aside"@, "abstain"@, "consent"@, "support"@, "champion"@]
}

pub open spec fn outcome_words() -> Seq<Seq<char>> {
    seq!["accepted"@, "rejected"@, "tabled"@, "withdrawn"@]
}

/// The arguments of the tool named `tool`; a tool without arguments, or a
/// name that is no tool, has none.
pub open spec fn parameter_schema(tool: Seq<char>) -> (Seq<ParameterView>, Seq<Seq<char>>) {
    if tool == "claim_detail"@ {
        (
            seq![("claim_id"@, ParameterKindView::Text, "The claim identifier"@)],
            seq!["claim_id"@],
        )
    } else if tool == "draft_claim"@ {
        (
            seq![
                ("body"@, ParameterKindView::Text, "The claim text"@),
                ("kind"@, ParameterKindView::Choice(claim_kind_words()), "Type of claim"@),
                ("parent"@, ParameterKindView::ClaimReference, "Optional parent claim reference. Use claim:<id> for committed claims or draft:<id> for a locally drafted claim."@),
            ],
            seq!["body"@, "kind"@],
        )
    } else if tool == "draft_relation"@ {
        (
            seq![
                ("source"@, ParameterKindView::ClaimReference, "The claim making the attack/support. Use claim:<id> or draft:<id>."@),
                ("target"@, ParameterKindView::ClaimReference, "The claim being attacked/supported. Use claim:<id> or draft:<id>."@),
                ("kind"@, ParameterKindView::Choice(relation_kind_words()), "Relation type"@),
            ],
            seq!["source"@, "target"@, "kind"@],
        )
    } else if tool == "draft_stance"@ {
        (
            seq![
                ("target"@, ParameterKindView::ClaimReference, "The claim to take a stance on. Use claim:<id> or draft:<id>."@),
                ("position"@, ParameterKindView::Choice(position_words()), "Position on the claim: consent=simple agreement, support=positive support, champion=strong advocacy/leadership, object/block=disagreement"@),
            ],
            seq!["target"@, "position"@],
        )
    } else if tool == "draft_resolve"@ {
        (
            seq![
                ("claim"@, ParameterKindView::ClaimReference, "The proposal to resolve. Use claim:<id> or draft:<id>."@),
                ("outcome"@, ParameterKindView::Choice(outcome_words()), "Resolution outcome"@),
            ],
            seq!["claim"@, "outcome"@],
        )
    } else if tool == "draft_comment"@ {
        (
            seq![
                ("body"@, ParameterKindView::Text, "Comment text"@),
                ("claim"@, ParameterKindView::ClaimReference, "Optional related claim reference. Use claim:<id> or draft:<id>."@),
            ],
            seq!["body"@],
        )
    } else if tool == "remove_draft"@ {
        (
            seq![("draft_id"@, ParameterKindView::Number, "The draft ID to remove"@)],
            seq!["draft_id"@],
        )
    } else if tool == "preview_claim_detail"@ {
        (
            seq![("claim"@, ParameterKindView::ClaimReference, "The committed or draft-local claim to preview. Use claim:<id> or draft:<id>."@)],
            seq!["claim"@],
        )
    } else {
        (Seq::empty(), Seq::empty())
    }
}

fn param(name: &str, kind: ParameterKind, description: &str) -> (p: ToolParameter)
    ensures
        parameter_view(p) == (name@, kind_view(kind), description@),
{
    ToolParameter { name: to_string(name), kind, description: to_string(description) }
}

fn words2(a: &str, b: &str) -> (w: Vec<String>)
    ensures
        texts(w@) == seq![a@, b@],
{
    let w = vec![to_string(a), to_string(b)];
    assert(texts(w@) =~= seq![a@, b@]);
    w
}

fn words4(a: &str, b: &str, c: &str, d: &str) -> (w: Vec<String>)
    ensures
        texts(w@) == seq![a@, b@, c@, d@],
{
    let w = vec![to_string(a), to_string(b), to_string(c), to_string(d)];
    assert(texts(w@) =~= seq![a@, b@, c@, d@]);
    w
}

fn words6(a: &str, b: &str, c: &str, d: &str, e: &str, f: &str) -> (w: Vec<String>)
    ensures
        texts(w@) == seq![a@, b@, c@, d@, e@, f@],
{
    let w = vec![to_string(a), to_string(b), to_string(c), to_string(d), to_string(e), to_string(f)];
    assert(texts(w@) =~= seq![a@, b@, c@, d@, e@, f@]);
    w
}

fn words7(a: &str, b: &str, c: &str, d: &str, e: &str, f: &str, g: &str) -> (w: Vec<String>)
    ensures
        texts(w@) == seq![a@, b@, c@, d@, e@, f@, g@],
{
    let w = vec![
        to_string(a),
        to_string(b),
        to_string(c),
        to_string(d),
        to_string(e),
        to_string(f),
        to_string(g),
    ];
    assert(texts(w@) =~= seq![a@, b@, c@, d@, e@, f@, g@]);
    w
}

fn one(p: ToolParameter, r: &str) -> (ps: ToolParameters)
    ensures
        parameters_view(ps) == (seq![parameter_view(p)], seq![r@]),
{
    let ghost pv = parameter_view(p);
    let ps = ToolParameters { properties: vec![p], required: vec![to_string(r)] };
    assert(parameters_view(ps).0 =~= seq![pv]);
    assert(parameters_view(ps).1 =~= seq![r@]);
    ps
}

fn two(p: ToolParameter, q: ToolParameter, required: Vec<String>) -> (ps: ToolParameters)
    ensures
        parameters_view(ps) == (seq![parameter_view(p), parameter_view(q)], texts(required@)),
{
    let ghost pv = parameter_view(p);
    let ghost qv = parameter_view(q);
    let ps = ToolParameters { properties: vec![p, q], required };
    assert(parameters_view(ps).0 =~= seq![pv, qv]);
    ps
}

fn three(p: ToolParameter, q: ToolParameter, s: ToolParameter, required: Vec<String>) -> (ps:
    ToolParameters)
    ensures
        parameters_view(ps) == (
            seq![parameter_view(p), parameter_view(q), parameter_view(s)],
            texts(required@),
        ),
{
    let ghost pv = parameter_view(p);
    let ghost qv = parameter_view(q);
    let ghost sv = parameter_view(s);
    let ps = ToolParameters { properties: vec![p, q, s], required };
    assert(parameters_view(ps).0 =~= seq![pv, qv, sv]);
    ps
}

/// The arguments of the tool named `tool`.
pub fn tool_parameters(tool: &str) -> (params: ToolParameters)
    ensures
        parameters_view(params) == parameter_schema(tool@),
{
    if str_eq(tool, "claim_detail") {
        one(param("claim_id", ParameterKind::Text, "The claim identifier"), "claim_id")
    } else if str_eq(tool, "draft_claim") {
        three(
            param("body", ParameterKind::Text, "The claim text"),
            param(
                "kind",
                ParameterKind::Choice(
                    words6("item", "proposal", "fact", "conditional", "value", "reference"),
                ),
                "Type of claim",
            ),
            param(
                "parent",
                ParameterKind::ClaimReference,
                "Optional parent claim reference. Use claim:<id> for committed claims or draft:<id> for a locally drafted claim.",
            ),
            words2("body", "kind"),
        )
    } else if str_eq(tool, "draft_relation") {
        let required = vec![to_string("source"), to_string("target"), to_string("kind")];
        assert(texts(required@) =~= seq!["source"@, "target"@, "kind"@]);
        three(
            param(
                "source",
                ParameterKind::ClaimReference,
                "The claim making the attack/support. Use claim:<id> or draft:<id>.",
            ),
            param(
                "target",
                ParameterKind::ClaimReference,
                "The claim being attacked/supported. Use claim:<id> or draft:<id>.",
            ),
            param("kind", ParameterKind::Choice(words2("attacks", "supports")), "Relation type"),
            required,
        )
    } else if str_eq(tool, "draft_stance") {
        two(
            param(
                "target",
                ParameterKind::ClaimReference,
                "The claim to take a stance on. Use claim:<id> or draft:<id>.",
            ),
            param(
                "position",
                ParameterKind::Choice(
                    words7(
                        "block",
                        "object",
                        "stand_aside",
                        "abstain",
                        "consent",
                        "support",
                        "champion",
                    ),
                ),
                "Position on the claim: consent=simple agreement, support=positive support, champion=strong advocacy/leadership, object/block=disagreement",
            ),
            words2("target", "position"),
        )
    } else if str_eq(tool, "draft_resolve") {
        two(
            param(
                "claim",
                ParameterKind::ClaimReference,
                "The proposal to resolve. Use claim:<id> or draft:<id>.",
            ),
            param(
                "outcome",
                ParameterKind::Choice(words4("accepted", "rejected", "tabled", "withdrawn")),
                "Resolution outcome",
            ),
            words2("claim", "outcome"),
        )
    } else if str_eq(tool, "draft_comment") {
        let required = vec![to_string("body")];
        assert(texts(required@) =~= seq!["body"@]);
        two(
            param("body", ParameterKind::Text, "Comment text"),
            param(
                "claim",
                ParameterKind::ClaimReference,
                "Optional related claim reference. Use claim:<id> or draft:<id>.",
            ),
            required,
        )
    } else if str_eq(tool, "remove_draft") {
        one(param("draft_id", ParameterKind::Number, "The draft ID to remove"), "draft_id")
    } else if str_eq(tool, "preview_claim_detail") {
        one(
            param(
                "claim",
                ParameterKind::ClaimReference,
                "The committed or draft-local claim to preview. Use claim:<id> or draft:<id>.",
            ),
            "claim",
        )
    } else {
        let ps = ToolParameters { properties: Vec::new(), required: Vec::new() };
        assert(parameters_view(ps).0 =~= Seq::<ParameterView>::empty());
        assert(parameters_view(ps).1 =~= Seq::<Seq<char>>::empty());
        ps
    }
}

} // verus!
