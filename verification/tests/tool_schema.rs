use consensus::tool_schema::{tool_parameters, ParameterKind, ToolParameter, ToolParameters};

fn param(name: &str, kind: ParameterKind, description: &str) -> ToolParameter {
    ToolParameter { name: name.to_owned(), kind, description: description.to_owned() }
}

fn choice(words: &[&str]) -> ParameterKind {
    ParameterKind::Choice(words.iter().map(|w| w.to_string()).collect())
}

fn params(properties: Vec<ToolParameter>, required: &[&str]) -> ToolParameters {
    ToolParameters { properties, required: required.iter().map(|r| r.to_string()).collect() }
}

#[test]
fn tool_definitions_match_cli_argument_shapes_for_supported_mutations() {
    assert_eq!(
        tool_parameters("draft_claim"),
        params(
            vec![
                param("body", ParameterKind::Text, "The claim text"),
                param("kind", choice(&["item", "proposal", "fact", "conditional", "value", "reference"]), "Type of claim"),
                param(
                    "parent",
                    ParameterKind::ClaimReference,
                    "Optional parent claim reference. Use claim:<id> for committed claims or draft:<id> for a locally drafted claim."
                ),
            ],
            &["body", "kind"]
        )
    );
    assert_eq!(
        tool_parameters("draft_relation"),
        params(
            vec![
                param("source", ParameterKind::ClaimReference, "The claim making the attack/support. Use claim:<id> or draft:<id>."),
                param("target", ParameterKind::ClaimReference, "The claim being attacked/supported. Use claim:<id> or draft:<id>."),
                param("kind", choice(&["attacks", "supports"]), "Relation type"),
            ],
            &["source", "target", "kind"]
        )
    );
    assert_eq!(
        tool_parameters("draft_stance"),
        params(
            vec![
                param("target", ParameterKind::ClaimReference, "The claim to take a stance on. Use claim:<id> or draft:<id>."),
                param(
                    "position",
                    choice(&["block", "object", "stand_aside", "abstain", "consent", "support", "champion"]),
                    "Position on the claim: consent=simple agreement, support=positive support, champion=strong advocacy/leadership, object/block=disagreement"
                ),
            ],
            &["target", "position"]
        )
    );
    assert_eq!(
        tool_parameters("draft_resolve"),
        params(
            vec![
                param("claim", ParameterKind::ClaimReference, "The proposal to resolve. Use claim:<id> or draft:<id>."),
                param("outcome", choice(&["accepted", "rejected", "tabled", "withdrawn"]), "Resolution outcome"),
            ],
            &["claim", "outcome"]
        )
    );
    assert_eq!(
        tool_parameters("draft_comment"),
        params(
            vec![
                param("body", ParameterKind::Text, "Comment text"),
                param("claim", ParameterKind::ClaimReference, "Optional related claim reference. Use claim:<id> or draft:<id>."),
            ],
            &["body"]
        )
    );
    assert_eq!(
        tool_parameters("remove_draft"),
        params(vec![param("draft_id", ParameterKind::Number, "The draft ID to remove")], &["draft_id"])
    );
}

#[test]
fn inspection_tools_take_only_what_they_look_up() {
    for tool in ["overview", "show_drafts", "preview_overview", "impact_analysis", "no_such_tool"] {
        assert_eq!(tool_parameters(tool), params(vec![], &[]));
    }
    assert_eq!(
        tool_parameters("claim_detail"),
        params(vec![param("claim_id", ParameterKind::Text, "The claim identifier")], &["claim_id"])
    );
    assert_eq!(
        tool_parameters("preview_claim_detail"),
        params(
            vec![param(
                "claim",
                ParameterKind::ClaimReference,
                "The committed or draft-local claim to preview. Use claim:<id> or draft:<id>."
            )],
            &["claim"]
        )
    );
}
