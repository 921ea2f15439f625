use consensus::app_tools::{
    decode_tool_call, AppTool, ArgumentValue, ToolArguments, ToolDecodeError, ToolDecodeErrorKind,
};
use consensus::response::CompletedToolCall;
use consensus::tool_arguments::{claim_ref_of_json, decode_raw_tool_call, decode_tool_arguments};
use consensus::types::{ClaimId, ClaimKind, ClaimRef, DraftId, Position, RelationKind};

fn call(name: &str) -> CompletedToolCall {
    CompletedToolCall {
        id: "call_1".into(),
        call_type: "function".into(),
        function_name: name.into(),
        arguments_json: String::new(),
    }
}

fn text(value: &str) -> ArgumentValue {
    ArgumentValue { text: Some(value.into()), unsigned: None, claim_ref: None }
}

fn reference(value: &str, claim_ref: ClaimRef) -> ArgumentValue {
    ArgumentValue { text: Some(value.into()), unsigned: None, claim_ref: Some(claim_ref) }
}

fn args(fields: Vec<(&str, ArgumentValue)>) -> Result<ToolArguments, String> {
    Ok(ToolArguments { fields: fields.into_iter().map(|(k, v)| (k.to_string(), v)).collect() })
}

fn error(kind: ToolDecodeErrorKind, message: &str) -> ToolDecodeError {
    ToolDecodeError { kind, message: message.into() }
}

#[test]
fn decodes_draft_relation_with_mixed_references() {
    let decoded = decode_tool_call(
        &call("draft_relation"),
        &args(vec![
            ("source", reference("claim:c1", ClaimRef::Committed(ClaimId("c1".into())))),
            ("target", reference("draft:7", ClaimRef::Draft(DraftId(7)))),
            ("kind", text("supports")),
        ]),
    );
    assert_eq!(
        decoded,
        Ok(AppTool::DraftRelation {
            source: ClaimRef::Committed(ClaimId("c1".into())),
            target: ClaimRef::Draft(DraftId(7)),
            kind: RelationKind::Supports,
        })
    );
}

#[test]
fn decodes_draft_claim_with_optional_parent_absent() {
    let decoded = decode_tool_call(&call("draft_claim"), &args(vec![("body", text("Use JWT")), ("kind", text("proposal"))]));
    assert_eq!(decoded, Ok(AppTool::DraftClaim { body: "Use JWT".into(), kind: ClaimKind::Proposal, parent: None }));
}

#[test]
fn decodes_stance_and_remove_draft() {
    let decoded = decode_tool_call(
        &call("draft_stance"),
        &args(vec![("target", reference("#3", ClaimRef::Draft(DraftId(3)))), ("position", text("stand_aside"))]),
    );
    assert_eq!(decoded, Ok(AppTool::DraftStance { target: ClaimRef::Draft(DraftId(3)), position: Position::StandAside }));
    let decoded = decode_tool_call(
        &call("remove_draft"),
        &args(vec![("draft_id", ArgumentValue { text: None, unsigned: Some(4), claim_ref: None })]),
    );
    assert_eq!(decoded, Ok(AppTool::RemoveDraft { draft_id: DraftId(4) }));
    assert_eq!(decode_tool_call(&call("overview"), &args(vec![])), Ok(AppTool::Overview));
}

#[test]
fn reports_each_kind_of_mistake() {
    assert_eq!(
        decode_tool_call(&call("summon"), &args(vec![])),
        Err(error(ToolDecodeErrorKind::UnknownTool, "unknown tool: summon"))
    );
    assert_eq!(
        decode_tool_call(&call("claim_detail"), &args(vec![])),
        Err(error(ToolDecodeErrorKind::MissingRequiredArgument, "missing required argument: claim_id"))
    );
    assert_eq!(
        decode_tool_call(&call("draft_claim"), &args(vec![("body", text("x")), ("kind", text("opinion"))])),
        Err(error(ToolDecodeErrorKind::InvalidArgumentValue, "kind: unknown claim kind 'opinion'"))
    );
    assert_eq!(
        decode_tool_call(&call("remove_draft"), &args(vec![("draft_id", text("7"))])),
        Err(error(ToolDecodeErrorKind::InvalidArgumentValue, "draft_id: expected a non-negative integer"))
    );
    assert_eq!(
        decode_tool_call(&call("claim_detail"), &Err("expected value at line 1 column 1".into())),
        Err(error(ToolDecodeErrorKind::InvalidJsonArguments, "invalid tool call arguments: expected value at line 1 column 1"))
    );
    let mut odd = call("overview");
    odd.call_type = "custom".into();
    assert_eq!(
        decode_tool_call(&odd, &args(vec![])),
        Err(error(ToolDecodeErrorKind::InvalidArgumentValue, "unsupported tool call type: custom"))
    );
    let bad_ref = decode_tool_call(&call("preview_claim_detail"), &args(vec![("claim", text("nonsense"))]));
    assert_eq!(
        bad_ref,
        Err(error(
            ToolDecodeErrorKind::InvalidArgumentValue,
            "claim: expected a claim reference string (claim:<id>, draft:<n>, #<n>) or an object with exactly one of claim_id or draft_id"
        ))
    );
}

#[test]
fn tool_definitions_include_exact_current_app_tool_set() {
    let names = consensus::app_tools::tool_descriptions().into_iter().map(|tool| tool.name).collect::<Vec<_>>();
    assert_eq!(
        names,
        vec![
            "overview",
            "claim_detail",
            "draft_claim",
            "draft_relation",
            "draft_stance",
            "draft_resolve",
            "draft_comment",
            "show_drafts",
            "remove_draft",
            "preview_overview",
            "preview_claim_detail",
            "impact_analysis",
        ]
    );
}

fn unsigned(value: u64) -> ArgumentValue {
    ArgumentValue { text: None, unsigned: Some(value), claim_ref: None }
}

fn object() -> ArgumentValue {
    ArgumentValue { text: None, unsigned: None, claim_ref: None }
}

fn committed(id: &str) -> ClaimRef {
    ClaimRef::Committed(ClaimId(String::from(id)))
}

const CLAIM_REF_PROBLEM: &str = "expected a claim reference string (claim:<id>, draft:<n>, #<n>) or an object with exactly one of claim_id or draft_id";

#[test]
fn parsed_arguments_decode_into_typed_tools() {
    assert_eq!(decode_tool_call(&call("overview"), &args(vec![])), Ok(AppTool::Overview));
    assert_eq!(
        decode_tool_call(&call("claim_detail"), &args(vec![("claim_id", text("c1"))])),
        Ok(AppTool::ClaimDetail { claim_id: ClaimId(String::from("c1")) })
    );
    assert_eq!(
        decode_tool_call(
            &call("draft_claim"),
            &args(vec![
                ("body", text("Use JWT")),
                ("kind", text("proposal")),
                ("parent", reference("claim:root", committed("root"))),
            ])
        ),
        Ok(AppTool::DraftClaim {
            body: String::from("Use JWT"),
            kind: ClaimKind::Proposal,
            parent: Some(committed("root")),
        })
    );
    assert_eq!(
        decode_tool_call(&call("remove_draft"), &args(vec![("draft_id", unsigned(7))])),
        Ok(AppTool::RemoveDraft { draft_id: DraftId(7) })
    );
    assert_eq!(
        decode_tool_call(
            &call("draft_relation"),
            &args(vec![
                ("source", reference("claim:c1", committed("c1"))),
                ("target", reference("draft:7", ClaimRef::Draft(DraftId(7)))),
                ("kind", text("supports")),
            ])
        ),
        Ok(AppTool::DraftRelation {
            source: committed("c1"),
            target: ClaimRef::Draft(DraftId(7)),
            kind: RelationKind::Supports,
        })
    );
    assert_eq!(
        decode_tool_call(
            &call("draft_stance"),
            &args(vec![("target", reference("claim:c1", committed("c1"))), ("position", text("support"))])
        ),
        Ok(AppTool::DraftStance { target: committed("c1"), position: Position::Support })
    );
    assert_eq!(
        decode_tool_call(
            &call("draft_resolve"),
            &args(vec![("claim", reference("claim:c1", committed("c1"))), ("outcome", text("accepted"))])
        ),
        Ok(AppTool::DraftResolve { claim: committed("c1"), outcome: consensus::types::Outcome::Accepted })
    );
    assert_eq!(
        decode_tool_call(
            &call("draft_comment"),
            &args(vec![("body", text("Looks good")), ("claim", reference("draft:7", ClaimRef::Draft(DraftId(7))))])
        ),
        Ok(AppTool::DraftComment {
            body: String::from("Looks good"),
            claim: Some(ClaimRef::Draft(DraftId(7))),
        })
    );
}

#[test]
fn parsed_argument_mistakes_return_decode_errors() {
    let json_problem = serde_json::from_str::<serde_json::Value>("{\"body\":\"oops\"").unwrap_err().to_string();
    assert_eq!(
        decode_tool_call(&call("draft_claim"), &Err(json_problem)),
        Err(error(
            ToolDecodeErrorKind::InvalidJsonArguments,
            "invalid tool call arguments: EOF while parsing an object at line 1 column 14"
        ))
    );
    assert_eq!(
        decode_tool_call(&call("remove_draft"), &args(vec![("draft_id", text("bad"))])),
        Err(error(ToolDecodeErrorKind::InvalidArgumentValue, "draft_id: expected a non-negative integer"))
    );
    assert_eq!(
        decode_tool_call(&call("missing_tool"), &args(vec![])),
        Err(error(ToolDecodeErrorKind::UnknownTool, "unknown tool: missing_tool"))
    );
    assert_eq!(
        decode_tool_call(&call("claim_detail"), &args(vec![])),
        Err(error(ToolDecodeErrorKind::MissingRequiredArgument, "missing required argument: claim_id"))
    );
    assert_eq!(
        decode_tool_call(&call("preview_claim_detail"), &args(vec![("claim", object())])),
        Err(error(ToolDecodeErrorKind::InvalidArgumentValue, &format!("claim: {CLAIM_REF_PROBLEM}")))
    );
    assert_eq!(
        decode_tool_call(
            &call("draft_relation"),
            &args(vec![
                ("source", reference("claim:c1", committed("c1"))),
                ("target", reference("claim:c2", committed("c2"))),
                ("kind", text("depends")),
            ])
        ),
        Err(error(ToolDecodeErrorKind::InvalidArgumentValue, "kind: unknown relation kind 'depends'"))
    );
    assert_eq!(
        decode_tool_call(
            &call("draft_stance"),
            &args(vec![("target", reference("claim:c1", committed("c1"))), ("position", text("agree"))])
        ),
        Err(error(ToolDecodeErrorKind::InvalidArgumentValue, "position: unknown position 'agree'"))
    );
    assert_eq!(
        decode_tool_call(
            &call("draft_resolve"),
            &args(vec![("claim", reference("claim:c1", committed("c1"))), ("outcome", text("merged"))])
        ),
        Err(error(ToolDecodeErrorKind::InvalidArgumentValue, "outcome: unknown outcome 'merged'"))
    );
    assert_eq!(
        decode_tool_call(
            &call("draft_relation"),
            &args(vec![
                ("source", object()),
                ("target", reference("claim:c2", committed("c2"))),
                ("kind", text("supports")),
            ])
        ),
        Err(error(ToolDecodeErrorKind::InvalidArgumentValue, &format!("source: {CLAIM_REF_PROBLEM}")))
    );
    assert_eq!(
        decode_tool_call(&call("draft_stance"), &args(vec![("target", object()), ("position", text("support"))])),
        Err(error(ToolDecodeErrorKind::InvalidArgumentValue, &format!("target: {CLAIM_REF_PROBLEM}")))
    );
    assert_eq!(
        decode_tool_call(&call("draft_comment"), &args(vec![("body", text("note")), ("claim", object())])),
        Err(error(ToolDecodeErrorKind::InvalidArgumentValue, &format!("claim: {CLAIM_REF_PROBLEM}")))
    );
}

fn raw(name: &str, arguments: &str) -> CompletedToolCall {
    CompletedToolCall {
        id: "call_1".into(),
        call_type: "function".into(),
        function_name: name.into(),
        arguments_json: arguments.into(),
    }
}

#[test]
fn valid_raw_calls_decode_into_typed_tools() {
    let calls = vec![
        raw("overview", "{}"),
        raw("claim_detail", "{\"claim_id\":\"c1\"}"),
        raw("draft_claim", "{\"body\":\"Use JWT\",\"kind\":\"proposal\",\"parent\":\"claim:root\"}"),
        raw("remove_draft", "{\"draft_id\":7}"),
        raw("draft_relation", "{\"source\":\"claim:c1\",\"target\":\"draft:7\",\"kind\":\"supports\"}"),
        raw("draft_stance", "{\"target\":\"claim:c1\",\"position\":\"support\"}"),
        raw("draft_resolve", "{\"claim\":\"claim:c1\",\"outcome\":\"accepted\"}"),
        raw("draft_comment", "{\"body\":\"Looks good\",\"claim\":\"draft:7\"}"),
    ];
    assert_eq!(decode_raw_tool_call(&calls[0]), Ok(AppTool::Overview));
    assert_eq!(
        decode_raw_tool_call(&calls[1]),
        Ok(AppTool::ClaimDetail { claim_id: ClaimId(String::from("c1")) })
    );
    assert_eq!(
        decode_raw_tool_call(&calls[2]),
        Ok(AppTool::DraftClaim {
            body: String::from("Use JWT"),
            kind: ClaimKind::Proposal,
            parent: Some(committed("root")),
        })
    );
    assert_eq!(decode_raw_tool_call(&calls[3]), Ok(AppTool::RemoveDraft { draft_id: DraftId(7) }));
    assert_eq!(
        decode_raw_tool_call(&calls[4]),
        Ok(AppTool::DraftRelation {
            source: committed("c1"),
            target: ClaimRef::Draft(DraftId(7)),
            kind: RelationKind::Supports,
        })
    );
    assert_eq!(
        decode_raw_tool_call(&calls[5]),
        Ok(AppTool::DraftStance { target: committed("c1"), position: Position::Support })
    );
    assert_eq!(
        decode_raw_tool_call(&calls[6]),
        Ok(AppTool::DraftResolve { claim: committed("c1"), outcome: consensus::types::Outcome::Accepted })
    );
    assert_eq!(
        decode_raw_tool_call(&calls[7]),
        Ok(AppTool::DraftComment {
            body: String::from("Looks good"),
            claim: Some(ClaimRef::Draft(DraftId(7))),
        })
    );
}

#[test]
fn unknown_tool_invalid_json_missing_args_and_invalid_values_return_decode_errors() {
    assert_eq!(
        decode_raw_tool_call(&raw("draft_claim", "{\"body\":\"oops\"")),
        Err(error(
            ToolDecodeErrorKind::InvalidJsonArguments,
            "invalid tool call arguments: EOF while parsing an object at line 1 column 14"
        ))
    );
    assert_eq!(
        decode_raw_tool_call(&raw("remove_draft", "{\"draft_id\":\"bad\"}")),
        Err(error(ToolDecodeErrorKind::InvalidArgumentValue, "draft_id: expected a non-negative integer"))
    );
    assert_eq!(
        decode_raw_tool_call(&raw("missing_tool", "{}")),
        Err(error(ToolDecodeErrorKind::UnknownTool, "unknown tool: missing_tool"))
    );
    assert_eq!(
        decode_raw_tool_call(&raw("claim_detail", "{}")),
        Err(error(ToolDecodeErrorKind::MissingRequiredArgument, "missing required argument: claim_id"))
    );
    assert_eq!(
        decode_raw_tool_call(&raw("preview_claim_detail", "{\"claim\":{\"claim_id\":\"c1\",\"draft_id\":1}}")),
        Err(error(ToolDecodeErrorKind::InvalidArgumentValue, &format!("claim: {CLAIM_REF_PROBLEM}")))
    );
    assert_eq!(
        decode_raw_tool_call(&raw(
            "draft_relation",
            "{\"source\":\"claim:c1\",\"target\":\"claim:c2\",\"kind\":\"depends\"}"
        )),
        Err(error(ToolDecodeErrorKind::InvalidArgumentValue, "kind: unknown relation kind 'depends'"))
    );
    assert_eq!(
        decode_raw_tool_call(&raw("draft_stance", "{\"target\":\"claim:c1\",\"position\":\"agree\"}")),
        Err(error(ToolDecodeErrorKind::InvalidArgumentValue, "position: unknown position 'agree'"))
    );
    assert_eq!(
        decode_raw_tool_call(&raw("draft_resolve", "{\"claim\":\"claim:c1\",\"outcome\":\"merged\"}")),
        Err(error(ToolDecodeErrorKind::InvalidArgumentValue, "outcome: unknown outcome 'merged'"))
    );
    assert_eq!(
        decode_raw_tool_call(&raw(
            "draft_relation",
            "{\"source\":{},\"target\":\"claim:c2\",\"kind\":\"supports\"}"
        )),
        Err(error(ToolDecodeErrorKind::InvalidArgumentValue, &format!("source: {CLAIM_REF_PROBLEM}")))
    );
    assert_eq!(
        decode_raw_tool_call(&raw("draft_stance", "{\"target\":{},\"position\":\"support\"}")),
        Err(error(ToolDecodeErrorKind::InvalidArgumentValue, &format!("target: {CLAIM_REF_PROBLEM}")))
    );
    assert_eq!(
        decode_raw_tool_call(&raw("draft_comment", "{\"body\":\"note\",\"claim\":{}}")),
        Err(error(ToolDecodeErrorKind::InvalidArgumentValue, &format!("claim: {CLAIM_REF_PROBLEM}")))
    );
}

fn json(text: &str) -> serde_json::Value {
    serde_json::from_str(text).unwrap()
}

#[test]
fn claim_references_follow_their_grammar() {
    assert_eq!(claim_ref_of_json(&json("\"claim:c1\"")), Some(committed("c1")));
    assert_eq!(claim_ref_of_json(&json("\"draft:7\"")), Some(ClaimRef::Draft(DraftId(7))));
    assert_eq!(claim_ref_of_json(&json("\"#12\"")), Some(ClaimRef::Draft(DraftId(12))));
    assert_eq!(claim_ref_of_json(&json("{\"claim_id\":\"c9\"}")), Some(committed("c9")));
    assert_eq!(claim_ref_of_json(&json("{\"draft_id\":3}")), Some(ClaimRef::Draft(DraftId(3))));
    assert_eq!(claim_ref_of_json(&json("\"claim:\"")), None);
    assert_eq!(claim_ref_of_json(&json("\"draft:\"")), None);
    assert_eq!(claim_ref_of_json(&json("\"draft:x7\"")), None);
    assert_eq!(claim_ref_of_json(&json("\"#99999999999999999999\"")), None);
    assert_eq!(claim_ref_of_json(&json("\"c1\"")), None);
    assert_eq!(claim_ref_of_json(&json("{\"claim_id\":\"\"}")), None);
    assert_eq!(claim_ref_of_json(&json("{\"draft_id\":-1}")), None);
    assert_eq!(claim_ref_of_json(&json("{}")), None);
    assert_eq!(claim_ref_of_json(&json("7")), None);
}

#[test]
fn tool_arguments_are_read_from_json_text() {
    let read = decode_tool_arguments(&raw("remove_draft", "{\"draft_id\":7,\"extra\":1}")).unwrap();
    assert_eq!(read.fields.len(), 1);
    assert_eq!(read.fields[0].0, "draft_id");
    assert_eq!(read.fields[0].1.unsigned, Some(7));
    assert_eq!(read.fields[0].1.text, None);
    assert!(decode_tool_arguments(&raw("overview", "not json")).is_err());
}
