use consensus::drafts::{
    draft_claim, init, notice, reduce, remove_draft, show_drafts, state_with_drafts, view, Context,
    Event, Notice, State,
};
use consensus::types::{ClaimKind, ClaimRef, DraftContent, DraftEntry, DraftId, EngineError, Position};

fn draft_ids(state: &State) -> Vec<DraftId> {
    show_drafts(state).iter().map(|draft| draft.id).collect()
}

fn with_not_found_notice(state: State, draft_id: u64) -> State {
    reduce(
        state,
        Event::RemoveDraftRequested {
            draft_id: DraftId(draft_id),
        },
        Context::default(),
    )
    .state
}

#[test]
fn initial_state_has_empty_view_and_reducer_emits_no_effects() {
    let state = init();
    let draft_view = view(&state);

    assert!(draft_view.drafts.is_empty());
    assert!(draft_view.notice.is_none());

    let transition = reduce(
        state,
        Event::RemoveDraftRequested {
            draft_id: DraftId(0),
        },
        Context::default(),
    );
    assert!(transition.effects.is_empty());
}

#[test]
fn successful_claim_draft_appends_one_draft_and_clears_notice() {
    let state = init();
    let transition = reduce(
        state,
        Event::RemoveDraftRequested {
            draft_id: DraftId(999),
        },
        Context::default(),
    );
    assert_eq!(
        notice(&transition.state),
        Some(&Notice::DraftNotFound {
            draft_id: DraftId(999),
        })
    );

    let transition = reduce(
        transition.state,
        Event::DraftClaimRequested {
            body: String::from("Use session cookies"),
            claim_kind: ClaimKind::Proposal,
            parent: None,
        },
        Context::default(),
    );

    assert!(transition.effects.is_empty());
    assert_eq!(notice(&transition.state), None);
    let drafts = show_drafts(&transition.state);
    assert_eq!(drafts.len(), 1);
    assert!(matches!(
        &drafts[0],
        DraftEntry {
            entry: DraftContent::Claim {
                body,
                claim_kind: ClaimKind::Proposal,
                parent: None,
            },
            ..
        } if body == "Use session cookies"
    ));
}

#[test]
fn notice_free_draft_claim_preserves_notice_and_returns_new_id() {
    let state = with_not_found_notice(init(), 999);

    let (state, draft_id) = draft_claim(
        state,
        String::from("Use session cookies"),
        ClaimKind::Proposal,
        None,
        Context::default(),
    )
    .unwrap();

    assert_eq!(draft_id, DraftId(0));
    assert_eq!(
        notice(&state),
        Some(&Notice::DraftNotFound {
            draft_id: DraftId(999),
        })
    );
    assert_eq!(show_drafts(&state).len(), 1);
}

#[test]
fn removing_existing_middle_draft_removes_only_that_draft_and_preserves_order() {
    let mut state = init();
    for body in ["first", "second", "third"] {
        state = reduce(
            state,
            Event::DraftClaimRequested {
                body: body.to_owned(),
                claim_kind: ClaimKind::Fact,
                parent: None,
            },
            Context::default(),
        )
        .state;
    }

    let before_ids = draft_ids(&state);
    let middle_id = before_ids[1];

    let transition = reduce(
        state,
        Event::RemoveDraftRequested {
            draft_id: middle_id,
        },
        Context::default(),
    );

    assert!(transition.effects.is_empty());
    assert_eq!(notice(&transition.state), None);
    assert_eq!(
        draft_ids(&transition.state),
        vec![before_ids[0], before_ids[2]]
    );
}

#[test]
fn notice_free_remove_draft_preserves_notice_and_removes_one_draft() {
    let mut state = init();
    for body in ["first", "second"] {
        state = reduce(
            state,
            Event::DraftClaimRequested {
                body: String::from(body),
                claim_kind: ClaimKind::Fact,
                parent: None,
            },
            Context::default(),
        )
        .state;
    }
    let state = with_not_found_notice(state, 999);

    let state = remove_draft(state, DraftId(0), Context::default()).unwrap();

    assert_eq!(draft_ids(&state), vec![DraftId(1)]);
    assert_eq!(
        notice(&state),
        Some(&Notice::DraftNotFound {
            draft_id: DraftId(999),
        })
    );
}

#[test]
fn removing_unknown_draft_preserves_drafts_and_sets_notice() {
    let state = reduce(
        init(),
        Event::DraftClaimRequested {
            body: String::from("known"),
            claim_kind: ClaimKind::Fact,
            parent: None,
        },
        Context::default(),
    )
    .state;
    let before_drafts = view(&state).drafts;

    let transition = reduce(
        state,
        Event::RemoveDraftRequested {
            draft_id: DraftId(999),
        },
        Context::default(),
    );

    assert!(transition.effects.is_empty());
    assert_eq!(view(&transition.state).drafts, before_drafts);
    assert_eq!(
        notice(&transition.state),
        Some(&Notice::DraftNotFound {
            draft_id: DraftId(999),
        })
    );
}

#[test]
fn removing_referenced_claim_draft_preserves_drafts_and_sets_notice() {
    let claim_draft = DraftId(0);
    let dependent = DraftId(1);
    let state = state_with_drafts(vec![
        DraftEntry {
            id: claim_draft,
            entry: DraftContent::Claim {
                body: String::from("A"),
                claim_kind: ClaimKind::Fact,
                parent: None,
            },
        },
        DraftEntry {
            id: dependent,
            entry: DraftContent::Stance {
                target: ClaimRef::Draft(claim_draft),
                position: Position::Block,
            },
        },
    ]);
    let before_drafts = view(&state).drafts;

    let transition = reduce(
        state,
        Event::RemoveDraftRequested {
            draft_id: claim_draft,
        },
        Context::default(),
    );

    assert!(transition.effects.is_empty());
    assert_eq!(view(&transition.state).drafts, before_drafts);
    assert_eq!(
        notice(&transition.state),
        Some(&Notice::DraftReferenced {
            draft_id: claim_draft,
            referenced_by: dependent,
        })
    );
}

fn comment_only_state() -> (State, DraftId) {
    let comment_draft = DraftId(0);
    let state = state_with_drafts(vec![DraftEntry {
        id: comment_draft,
        entry: DraftContent::Comment {
            claim: None,
            body: String::from("note"),
        },
    }]);
    (state, comment_draft)
}

#[test]
fn invalid_parent_claim_request_preserves_drafts_and_sets_notice() {
    let (state, comment_draft) = comment_only_state();
    let before_drafts = view(&state).drafts;

    let transition = reduce(
        state,
        Event::DraftClaimRequested {
            body: String::from("child"),
            claim_kind: ClaimKind::Fact,
            parent: Some(ClaimRef::Draft(comment_draft)),
        },
        Context::default(),
    );

    assert!(transition.effects.is_empty());
    assert_eq!(view(&transition.state).drafts, before_drafts);
    assert_eq!(
        notice(&transition.state),
        Some(&Notice::DraftReferenceMustTargetClaim {
            draft_id: comment_draft,
        })
    );
}

#[test]
fn notice_free_helpers_leave_state_unchanged_on_failure() {
    let (state, comment_draft) = comment_only_state();
    let state = with_not_found_notice(state, 777);
    let original_view = view(&state);

    assert_eq!(
        draft_claim(
            with_not_found_notice(comment_only_state().0, 777),
            String::from("child"),
            ClaimKind::Fact,
            Some(ClaimRef::Draft(comment_draft)),
            Context::default(),
        ),
        Err(EngineError::DraftReferenceMustTargetClaim(comment_draft))
    );
    assert_eq!(
        remove_draft(
            with_not_found_notice(comment_only_state().0, 777),
            DraftId(999),
            Context::default()
        ),
        Err(EngineError::DraftNotFound(DraftId(999)))
    );
    assert_eq!(view(&state), original_view);
}

#[test]
fn removing_a_draft_that_refers_to_itself_succeeds() {
    let state = state_with_drafts(vec![DraftEntry {
        id: DraftId(4),
        entry: DraftContent::Claim {
            body: String::from("loop"),
            claim_kind: ClaimKind::Fact,
            parent: Some(ClaimRef::Draft(DraftId(4))),
        },
    }]);
    let state = remove_draft(state, DraftId(4), Context::default()).unwrap();
    assert!(show_drafts(&state).is_empty());
}

#[test]
fn state_with_drafts_continues_after_largest_id() {
    let (state, _) = comment_only_state();
    let (_, id) = draft_claim(state, String::from("next"), ClaimKind::Item, None, Context::default())
        .unwrap();
    assert_eq!(id, DraftId(1));
}
