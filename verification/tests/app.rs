use consensus::app::{
    committed_entries, conversation, coordinator as coordinator_of, init, notice, participant,
    reduce, show_drafts, Effect, Event, State,
};
use std::marker::PhantomData;
use consensus::conversation::{history, Message};
use consensus::coordinator;
use consensus::drafts;
use consensus::response::{ChunkChoice, ChunkDelta, StreamChunk};
use consensus::types::{ClaimId, ClaimKind, DraftId, Entry};

fn claim_entry(id: &str, body: &str) -> Entry {
    Entry::Claim {
        claim_id: ClaimId(id.to_owned()),
        author: String::from("alice"),
        body: body.to_owned(),
        claim_kind: ClaimKind::Fact,
        parent_id: None,
    }
}

fn fetches(effects: &[Effect]) -> Vec<(usize, usize)> {
    effects
        .iter()
        .map(|effect| match effect {
            Effect::CoordinatorEffect { effect: coordinator::Effect::FetchMissing { from, limit, .. } } => (*from, *limit),
            Effect::ConversationEffect { .. } => panic!("unexpected conversation effect"),
        })
        .collect()
}

#[test]
fn init_fetches_up_to_latest_index() {
    let t = init(String::from("alice"), Some(2));
    assert_eq!(participant(&t.state), "alice");
    assert_eq!(fetches(&t.effects), vec![(0, 3)]);
    assert!(show_drafts(&t.state).is_empty());
    assert!(history(conversation(&t.state)).is_empty());
}

#[test]
fn init_without_latest_index_fetches_nothing() {
    let t = init(String::from("bob"), None);
    assert!(t.effects.is_empty());
    assert!(committed_entries(&t.state).is_empty());
}

#[test]
fn received_entries_become_committed_in_order() {
    let state = init(String::from("alice"), None).state;
    let t = reduce(state, Event::CoordinatorEvent { event: coordinator::Event::Received { index: 1, entry: claim_entry("c2", "second") } });
    assert_eq!(fetches(&t.effects), vec![(0, 1)]);
    assert!(committed_entries(&t.state).is_empty());
    let t = reduce(t.state, Event::CoordinatorEvent { event: coordinator::Event::Received { index: 0, entry: claim_entry("c1", "first") } });
    assert!(t.effects.is_empty());
    let committed = committed_entries(&t.state);
    assert_eq!(committed.len(), 2);
    assert_eq!(*committed[0], claim_entry("c1", "first"));
    assert_eq!(*committed[1], claim_entry("c2", "second"));
}

#[test]
fn draft_events_change_only_the_drafts() {
    let state = init(String::from("alice"), None).state;
    let t = reduce(
        state,
        Event::DraftsEvent {
            event: drafts::Event::DraftClaimRequested { body: String::from("Use JWT"), claim_kind: ClaimKind::Proposal, parent: None },
        },
    );
    assert!(t.effects.is_empty());
    let drafted = show_drafts(&t.state);
    assert_eq!(drafted.len(), 1);
    assert_eq!(drafted[0].id, DraftId(0));
    assert!(history(conversation(&t.state)).is_empty());
    let t = reduce(t.state, Event::DraftsEvent { event: drafts::Event::RemoveDraftRequested { draft_id: DraftId(9) } });
    assert_eq!(notice(&t.state), Some(drafts::Notice::DraftNotFound { draft_id: DraftId(9) }));
    assert_eq!(show_drafts(&t.state).len(), 1);
}

#[test]
fn conversation_events_append_messages_or_report_failures() {
    let state = init(String::from("alice"), None).state;
    let chunk = StreamChunk {
        choices: Some(vec![ChunkChoice {
            delta: Some(ChunkDelta { role: Some("assistant".into()), content: Some("hi".into()), tool_calls: vec![] }),
            finish_reason: Some("stop".into()),
        }]),
    };
    let t = reduce(state, Event::ConversationEvent { event: consensus::conversation::Event::ChatCompletionReceived { chunks: vec![chunk] } });
    assert!(t.effects.is_empty());
    assert_eq!(
        history(conversation(&t.state)),
        vec![Message::Assistant { content: Some("hi".into()), tool_calls: vec![] }].as_slice()
    );
    let t = reduce(t.state, Event::ConversationEvent { event: consensus::conversation::Event::ChatCompletionReceived { chunks: vec![] } });
    assert_eq!(t.effects.len(), 1);
    assert!(matches!(
        &t.effects[0],
        Effect::ConversationEffect { effect: consensus::conversation::Effect::ChatCompletionDecodeFailed { error } } if error == "no chunks to assemble"
    ));
    assert_eq!(history(conversation(&t.state)).len(), 1);
}

fn draft_claim_event(body: &str, claim_kind: ClaimKind) -> Event {
    Event::DraftsEvent {
        event: drafts::Event::DraftClaimRequested { body: body.to_owned(), claim_kind, parent: None },
    }
}

fn remove_draft_event(draft_id: DraftId) -> Event {
    Event::DraftsEvent { event: drafts::Event::RemoveDraftRequested { draft_id } }
}

fn received_event(index: usize, entry: Entry) -> Event {
    Event::CoordinatorEvent { event: coordinator::Event::Received { index, entry } }
}

fn stream_chunk(role: Option<&str>, content: Option<&str>) -> StreamChunk {
    StreamChunk {
        choices: Some(vec![ChunkChoice {
            delta: Some(ChunkDelta {
                role: role.map(str::to_owned),
                content: content.map(str::to_owned),
                tool_calls: vec![],
            }),
            finish_reason: None,
        }]),
    }
}

fn chat_completion_received_event(chunks: Vec<StreamChunk>) -> Event {
    Event::ConversationEvent { event: consensus::conversation::Event::ChatCompletionReceived { chunks } }
}

fn fetch_missing(from: usize, limit: usize) -> Effect {
    Effect::CoordinatorEffect { effect: coordinator::Effect::FetchMissing { from, limit, _marker: PhantomData } }
}

fn init_state() -> State {
    init(String::from("alice"), None).state
}

/// How many claims the committed entries hold.
fn committed_claims(state: &State) -> usize {
    committed_entries(state).iter().filter(|entry| matches!(entry, Entry::Claim { .. })).count()
}

#[test]
fn init_without_latest_entry_index_has_empty_view_and_no_effects() {
    let transition = init(String::from("alice"), None);
    let state = transition.state;
    assert!(transition.effects.is_empty());
    assert_eq!(participant(&state), "alice");
    assert!(history(conversation(&state)).is_empty());
    assert!(show_drafts(&state).is_empty());
    assert!(notice(&state).is_none());
    assert!(committed_entries(&state).is_empty());
    let transition = reduce(state, remove_draft_event(DraftId(0)));
    assert!(transition.effects.is_empty());
}

#[test]
fn draft_and_coordinator_events_preserve_conversation_state() {
    let state = init_state();
    let conversation_before = consensus::conversation::view(conversation(&state));
    let state = reduce(state, draft_claim_event("local draft", ClaimKind::Proposal)).state;
    assert_eq!(consensus::conversation::view(conversation(&state)), conversation_before);
    let state = reduce(state, received_event(0, claim_entry("c1", "committed"))).state;
    assert_eq!(consensus::conversation::view(conversation(&state)), conversation_before);
}

#[test]
fn chat_completion_received_changes_only_conversation_history() {
    let mut state = init_state();
    state = reduce(state, draft_claim_event("local draft", ClaimKind::Proposal)).state;
    state = reduce(state, received_event(0, claim_entry("c1", "committed"))).state;
    let participant_before = participant(&state).to_owned();
    let coordinator_before = coordinator_of(&state).clone();
    let drafts_before = (show_drafts(&state), notice(&state));
    let transition = reduce(
        state,
        chat_completion_received_event(vec![
            stream_chunk(Some("assistant"), None),
            stream_chunk(None, Some("hello")),
            stream_chunk(None, Some(" world")),
        ]),
    );
    assert!(transition.effects.is_empty());
    assert_eq!(participant(&transition.state), participant_before);
    assert_eq!(*coordinator_of(&transition.state), coordinator_before);
    assert_eq!((show_drafts(&transition.state), notice(&transition.state)), drafts_before);
    assert_eq!(
        history(conversation(&transition.state)),
        vec![Message::Assistant { content: Some(String::from("hello world")), tool_calls: Vec::new() }]
            .as_slice()
    );
}

#[test]
fn chat_completion_decode_failure_surfaces_as_wrapped_conversation_effect() {
    let state = init_state();
    let participant_before = participant(&state).to_owned();
    let coordinator_before = coordinator_of(&state).clone();
    let drafts_before = (show_drafts(&state), notice(&state));
    let conversation_before = consensus::conversation::view(conversation(&state));
    let transition = reduce(state, chat_completion_received_event(vec![]));
    assert_eq!(participant(&transition.state), participant_before);
    assert_eq!(*coordinator_of(&transition.state), coordinator_before);
    assert_eq!((show_drafts(&transition.state), notice(&transition.state)), drafts_before);
    assert_eq!(consensus::conversation::view(conversation(&transition.state)), conversation_before);
    assert_eq!(
        transition.effects,
        vec![Effect::ConversationEffect {
            effect: consensus::conversation::Effect::ChatCompletionDecodeFailed {
                error: String::from("no chunks to assemble"),
            },
        }]
    );
}

#[test]
fn init_with_latest_entry_index_requests_missing_history() {
    let transition = init(String::from("alice"), Some(3));
    assert_eq!(transition.effects, vec![fetch_missing(0, 4)]);
    assert_eq!(committed_claims(&transition.state), 0);
}

#[test]
fn session_entry_observed_updates_overview_via_coordinator() {
    let transition = reduce(init_state(), received_event(0, claim_entry("c1", "Use JWT")));
    assert!(transition.effects.is_empty());
    assert_eq!(committed_claims(&transition.state), 1);
    assert_eq!(committed_entries(&transition.state).len(), 1);
}

#[test]
fn future_out_of_order_entries_do_not_affect_overview_until_gap_is_filled() {
    let transition = reduce(init_state(), received_event(2, claim_entry("c3", "third")));
    assert_eq!(transition.effects, vec![fetch_missing(0, 2)]);
    assert_eq!(committed_claims(&transition.state), 0);
    let transition = reduce(transition.state, received_event(0, claim_entry("c1", "first")));
    assert!(transition.effects.is_empty());
    assert_eq!(committed_claims(&transition.state), 1);
    let transition = reduce(transition.state, received_event(1, claim_entry("c2", "second")));
    assert!(transition.effects.is_empty());
    assert_eq!(committed_claims(&transition.state), 3);
}

#[test]
fn coordinator_fetch_requests_surface_as_wrapped_child_effects() {
    let transition = reduce(init_state(), received_event(4, claim_entry("c5", "fifth")));
    assert_eq!(transition.effects, vec![fetch_missing(0, 4)]);
}

#[test]
fn drafts_event_changes_only_drafts_state_and_preserves_committed_overview() {
    let state = reduce(init_state(), received_event(0, claim_entry("c1", "committed"))).state;
    let committed_before: Vec<Entry> = committed_entries(&state).into_iter().cloned().collect();
    let transition = reduce(state, draft_claim_event("local draft", ClaimKind::Proposal));
    assert!(transition.effects.is_empty());
    let committed_after: Vec<Entry> = committed_entries(&transition.state).into_iter().cloned().collect();
    assert_eq!(committed_after, committed_before);
    assert_eq!(show_drafts(&transition.state).len(), 1);
}

#[test]
fn coordinator_event_preserves_existing_draft_notice_and_drafts() {
    let mut state = init_state();
    state = reduce(state, draft_claim_event("draft", ClaimKind::Fact)).state;
    state = reduce(state, remove_draft_event(DraftId(999))).state;
    let drafts_before = show_drafts(&state);
    let notice_before = notice(&state);
    let transition = reduce(state, received_event(0, claim_entry("c1", "committed")));
    assert_eq!(show_drafts(&transition.state), drafts_before);
    assert_eq!(notice(&transition.state), notice_before);
    assert_eq!(committed_claims(&transition.state), 1);
}

#[test]
fn show_drafts_query_reads_local_drafts_directly() {
    let state = reduce(init_state(), draft_claim_event("draft", ClaimKind::Proposal)).state;
    let drafts = show_drafts(&state);
    assert_eq!(drafts.len(), 1);
    assert_eq!(drafts[0].id, DraftId(0));
}

#[test]
fn entry_only_events_preserve_existing_draft_notice() {
    let mut state = init_state();
    state = reduce(state, draft_claim_event("draft", ClaimKind::Fact)).state;
    state = reduce(state, remove_draft_event(DraftId(999))).state;
    let transition = reduce(state, received_event(0, claim_entry("c1", "committed")));
    assert_eq!(show_drafts(&transition.state).len(), 1);
    assert_eq!(notice(&transition.state), Some(drafts::Notice::DraftNotFound { draft_id: DraftId(999) }));
}
