use consensus::materialized::{ClaimState, EpistemicStatus, MaterializedState};
use consensus::preview::{
    build_impact_analysis, draft_claim_preview_id, find_draft, materialize_draft_for_preview,
    materialize_drafts_for_preview, merged_entries, resolve_claim_ref_for_preview,
    validate_claim_ref, ImpactStatusChange,
};
use consensus::types::{
    ClaimId, ClaimKind, ClaimRef, DraftContent, DraftEntry, DraftId, EngineError, Entry, Outcome,
    Position, RelationKind,
};

fn id(s: &str) -> ClaimId {
    ClaimId(s.to_string())
}

fn claim_draft(n: u64, body: &str, kind: ClaimKind, parent: Option<ClaimRef>) -> DraftEntry {
    DraftEntry { id: DraftId(n), entry: DraftContent::Claim { body: body.to_string(), claim_kind: kind, parent } }
}

fn committed_claim(claim_id: &str, author: &str, body: &str) -> ClaimState {
    ClaimState {
        id: id(claim_id),
        body: body.to_string(),
        author: author.to_string(),
        kind: ClaimKind::Fact,
        parent_id: None,
        resolution: None,
    }
}

#[test]
fn draft_preview_ids_use_the_draft_number() {
    assert_eq!(draft_claim_preview_id(DraftId(0)), id("draft-0"));
    assert_eq!(draft_claim_preview_id(DraftId(42)), id("draft-42"));
}

#[test]
fn claim_references_resolve_to_preview_ids() {
    let drafts = vec![
        claim_draft(0, "Draft", ClaimKind::Fact, None),
        DraftEntry {
            id: DraftId(1),
            entry: DraftContent::Stance { target: ClaimRef::Draft(DraftId(0)), position: Position::Support },
        },
    ];
    assert!(find_draft(&drafts, DraftId(1)).is_some());
    assert!(find_draft(&drafts, DraftId(7)).is_none());
    assert_eq!(resolve_claim_ref_for_preview(&drafts, &ClaimRef::Draft(DraftId(0))), Ok(id("draft-0")));
    assert_eq!(resolve_claim_ref_for_preview(&drafts, &ClaimRef::Committed(id("c1"))), Ok(id("c1")));
    assert_eq!(
        validate_claim_ref(&drafts, &ClaimRef::Draft(DraftId(1))),
        Err(EngineError::DraftReferenceMustTargetClaim(DraftId(1)))
    );
    assert_eq!(
        resolve_claim_ref_for_preview(&drafts, &ClaimRef::Draft(DraftId(9))),
        Err(EngineError::DraftNotFound(DraftId(9)))
    );
}

#[test]
fn drafts_become_entries_by_the_draft_author() {
    let drafts = vec![
        claim_draft(0, "New fact", ClaimKind::Fact, Some(ClaimRef::Committed(id("item")))),
        DraftEntry {
            id: DraftId(1),
            entry: DraftContent::Relation {
                source: ClaimRef::Draft(DraftId(0)),
                target: ClaimRef::Committed(id("c1")),
                kind: RelationKind::Attacks,
            },
        },
        DraftEntry {
            id: DraftId(2),
            entry: DraftContent::Resolve { claim: ClaimRef::Committed(id("c1")), outcome: Outcome::Tabled },
        },
        DraftEntry {
            id: DraftId(3),
            entry: DraftContent::Comment { claim: None, body: "note".to_string() },
        },
    ];
    let entries = materialize_drafts_for_preview(&drafts, "assistant").unwrap();
    assert_eq!(entries.len(), 4);
    assert_eq!(
        entries[0],
        Entry::Claim {
            claim_id: id("draft-0"),
            author: "assistant".to_string(),
            body: "New fact".to_string(),
            claim_kind: ClaimKind::Fact,
            parent_id: Some(id("item")),
        }
    );
    assert_eq!(
        entries[1],
        Entry::Relation {
            source_id: id("draft-0"),
            target_id: id("c1"),
            kind: RelationKind::Attacks,
            author: "assistant".to_string(),
        }
    );
    assert_eq!(
        entries[3],
        Entry::Comment { claim_id: None, author: "assistant".to_string(), body: "note".to_string() }
    );
}

#[test]
fn first_bad_reference_fails_the_preview() {
    let drafts = vec![
        DraftEntry {
            id: DraftId(0),
            entry: DraftContent::Stance { target: ClaimRef::Draft(DraftId(5)), position: Position::Block },
        },
        DraftEntry {
            id: DraftId(1),
            entry: DraftContent::Stance { target: ClaimRef::Draft(DraftId(0)), position: Position::Block },
        },
    ];
    assert_eq!(
        materialize_draft_for_preview(&drafts, "a", &drafts[1]),
        Err(EngineError::DraftReferenceMustTargetClaim(DraftId(0)))
    );
    assert_eq!(
        materialize_drafts_for_preview(&drafts, "a"),
        Err(EngineError::DraftNotFound(DraftId(5)))
    );
    let committed = vec![Entry::Comment { claim_id: None, author: "x".to_string(), body: "y".to_string() }];
    assert_eq!(merged_entries(&committed, &drafts, "a"), Err(EngineError::DraftNotFound(DraftId(5))));
}

#[test]
fn merged_entries_put_committed_entries_first() {
    let committed = vec![Entry::Claim {
        claim_id: id("c1"),
        author: "alice".to_string(),
        body: "Committed".to_string(),
        claim_kind: ClaimKind::Fact,
        parent_id: None,
    }];
    let drafts = vec![claim_draft(0, "Draft", ClaimKind::Proposal, None)];
    let merged = merged_entries(&committed, &drafts, "assistant").unwrap();
    assert_eq!(merged.len(), 2);
    assert_eq!(merged[0], committed[0]);
    assert!(matches!(&merged[1], Entry::Claim { claim_id, .. } if *claim_id == id("draft-0")));
}

#[test]
fn impact_lists_new_claims_and_changed_statuses() {
    let drafts = vec![
        claim_draft(3, "Later", ClaimKind::Fact, None),
        claim_draft(0, "New fact", ClaimKind::Fact, None),
        DraftEntry {
            id: DraftId(1),
            entry: DraftContent::Relation {
                source: ClaimRef::Committed(id("c2")),
                target: ClaimRef::Committed(id("c1")),
                kind: RelationKind::Attacks,
            },
        },
    ];
    let committed = MaterializedState {
        claims: vec![committed_claim("c2", "bob", "Attacker"), committed_claim("c1", "alice", "Target")],
        relations: vec![],
        stances: vec![],
    };
    let preview = MaterializedState {
        claims: vec![committed_claim("c2", "bob", "Attacker"), committed_claim("c1", "alice", "Target")],
        relations: vec![],
        stances: vec![],
    };
    let committed_statuses = vec![
        (id("c1"), EpistemicStatus::Unexamined),
        (id("c2"), EpistemicStatus::Unexamined),
    ];
    let preview_statuses = vec![
        (id("c1"), EpistemicStatus::Defeated),
        (id("c2"), EpistemicStatus::Unexamined),
        (id("draft-0"), EpistemicStatus::Unexamined),
    ];
    let impact = build_impact_analysis(
        &drafts,
        "assistant",
        &committed,
        &committed_statuses,
        &preview,
        &preview_statuses,
    );
    assert_eq!(impact.new_claims.len(), 2);
    assert_eq!(impact.new_claims[0].draft_id, DraftId(0));
    assert_eq!(impact.new_claims[0].status, Some(EpistemicStatus::Unexamined));
    assert_eq!(impact.new_claims[0].author, "assistant");
    assert_eq!(impact.new_claims[1].draft_id, DraftId(3));
    assert_eq!(impact.new_claims[1].status, None);
    assert_eq!(
        impact.status_changes,
        vec![ImpactStatusChange {
            claim_id: id("c1"),
            body: "Target".to_string(),
            before: Some(EpistemicStatus::Unexamined),
            after: Some(EpistemicStatus::Defeated),
        }]
    );
}
