use consensus::gateway::{
    reduce, Capability, CapabilitySet, Effect, Event, GatewayState, ProtocolViolation,
    SendClientDone, SendClientError, ViolationSource, WorkerEntry,
};
use serde_json::Value;

/// Worker ids by name; the numbers keep the names' order.
fn w(name: &str) -> u64 {
    match name {
        "worker-a" => 1,
        "worker-b" => 2,
        "worker-c" => 3,
        "worker-fresh" => 10,
        "worker-stale" => 11,
        "ghost" => 99,
        _ => panic!("unknown worker name {name}"),
    }
}

/// Stream ids by name.
fn s(name: &str) -> u64 {
    match name {
        "client-1" => 1,
        "client-2" => 2,
        "client-3" => 3,
        "stream-fresh" => 20,
        "stream-stale" => 21,
        "unknown-stream" => 404,
        "ghost" => 99,
        _ => panic!("unknown stream name {name}"),
    }
}

fn demo_payload() -> Value {
    serde_json::from_str("{\"model\": \"demo\"}").unwrap()
}

fn empty_payload() -> Value {
    serde_json::from_str("{}").unwrap()
}

fn chat_caps() -> CapabilitySet {
    CapabilitySet { chat: true, transcription: false }
}

fn transcription_caps() -> CapabilitySet {
    CapabilitySet { chat: false, transcription: true }
}

fn both_caps() -> CapabilitySet {
    CapabilitySet { chat: true, transcription: true }
}

fn chat_entry(deadline: u64) -> WorkerEntry {
    WorkerEntry { deadline, capabilities: chat_caps() }
}

fn chat_request(client_stream_id: u64, stream: bool) -> Event {
    Event::HttpChatRequested {
        client_stream_id,
        payload: demo_payload(),
        stream,
        required_capability: Capability::Chat,
    }
}

fn transcription_request(client_stream_id: u64) -> Event {
    Event::HttpChatRequested {
        client_stream_id,
        payload: empty_payload(),
        stream: true,
        required_capability: Capability::Transcription,
    }
}

fn error_and_done(client_stream_id: u64, message: &str) -> Vec<Effect> {
    vec![
        Effect::SendClientError(SendClientError { client_stream_id, message: String::from(message) }),
        Effect::SendClientDone(SendClientDone { client_stream_id }),
    ]
}

fn dispatched_to(effect: &Effect) -> Option<u64> {
    match effect {
        Effect::DispatchJob(job) => Some(job.worker_id),
        _ => None,
    }
}

fn violation_mentions(effect: &Effect, text: &str) -> bool {
    matches!(effect, Effect::ProtocolViolation(pv) if pv.message.contains(text))
}

#[test]
fn stream_false_emits_error_and_done() {
    let state = GatewayState::default();
    let client_stream_id = s("client-1");
    let transition = reduce(state, chat_request(client_stream_id, false));
    assert_eq!(
        transition.effects,
        error_and_done(client_stream_id, "stream=true is required in this phase")
    );
}

#[test]
fn stream_true_assigns_first_available_worker() {
    let mut state = GatewayState::default();
    state.available.insert(w("worker-a"), chat_entry(100));
    state.available.insert(w("worker-b"), chat_entry(100));
    let client_stream_id = s("client-2");
    let payload = demo_payload();
    let transition = reduce(
        state,
        Event::HttpChatRequested {
            client_stream_id,
            payload: payload.clone(),
            stream: true,
            required_capability: Capability::Chat,
        },
    );

    assert_eq!(transition.effects.len(), 1);
    assert!(matches!(
        &transition.effects[0],
        Effect::DispatchJob(e) if e.worker_id == w("worker-a")
            && e.client_stream_id == client_stream_id
            && e.payload == payload
    ));
    assert!(!transition.state.available.contains_key(&w("worker-a")));
    assert!(transition.state.available.contains_key(&w("worker-b")));
    assert!(transition.state.active_streams.contains_key(&s("client-2")));
}

#[test]
fn stream_true_without_available_worker_emits_error_and_done() {
    let state = GatewayState::default();
    let client_stream_id = s("client-3");
    let transition = reduce(state, chat_request(client_stream_id, true));
    assert_eq!(transition.effects, error_and_done(client_stream_id, "no idle worker available"));
}

#[test]
fn dispatched_worker_is_consumed_from_available() {
    let mut state = GatewayState::default();
    state.available.insert(w("worker-a"), chat_entry(100));
    let transition = reduce(state, chat_request(s("client-1"), true));
    assert!(transition.state.available.is_empty());
    assert!(transition.state.active_streams.contains_key(&s("client-1")));
}

#[test]
fn dispatch_sets_stream_deadline() {
    let mut state = GatewayState::new(0, 60, 10, 30);
    state.tick = 5;
    state.available.insert(w("worker-a"), chat_entry(100));
    let transition = reduce(state, chat_request(s("client-1"), true));
    assert_eq!(transition.state.active_streams.get(&s("client-1")), Some(&15));
}

#[test]
fn registration_sets_worker_deadline() {
    let mut state = GatewayState::new(0, 20, 30, 30);
    state.tick = 3;
    let transition =
        reduce(state, Event::WorkerRegistered { worker_id: w("worker-a"), capabilities: chat_caps() });
    assert_eq!(transition.state.available.get(&w("worker-a")).map(|e| e.deadline), Some(23));
}

#[test]
fn second_request_rejected_when_no_workers_available() {
    let mut state = GatewayState::default();
    state.available.insert(w("worker-a"), chat_entry(100));
    let first = reduce(state, chat_request(s("client-1"), true));
    assert!(matches!(first.effects.as_slice(), [Effect::DispatchJob(_)]));
    let second = reduce(first.state, chat_request(s("client-2"), true));
    assert_eq!(second.effects, error_and_done(s("client-2"), "no idle worker available"));
}

#[test]
fn fresh_registration_after_assignment_cleared_allows_new_dispatch() {
    let mut state = GatewayState::default();
    state.available.insert(w("worker-a"), chat_entry(100));
    let dispatched = reduce(state, chat_request(s("client-1"), true));
    let cleared =
        reduce(dispatched.state, Event::AssignmentCleared { client_stream_id: s("client-1") });
    assert_eq!(
        cleared.effects,
        vec![Effect::SendClientDone(SendClientDone { client_stream_id: s("client-1") })]
    );
    let re_registered = reduce(
        cleared.state,
        Event::WorkerRegistered { worker_id: w("worker-b"), capabilities: chat_caps() },
    );
    let second = reduce(re_registered.state, chat_request(s("client-2"), true));
    assert_eq!(second.effects.len(), 1);
    assert_eq!(dispatched_to(&second.effects[0]), Some(w("worker-b")));
}

#[test]
fn assignment_cleared_emits_done() {
    let mut state = GatewayState::default();
    state.available.insert(w("worker-a"), chat_entry(100));
    let dispatched = reduce(state, chat_request(s("client-1"), true));
    let cleared =
        reduce(dispatched.state, Event::AssignmentCleared { client_stream_id: s("client-1") });
    assert_eq!(
        cleared.effects,
        vec![Effect::SendClientDone(SendClientDone { client_stream_id: s("client-1") })]
    );
    assert!(cleared.state.active_streams.is_empty());
}

#[test]
fn assignment_cleared_for_unknown_stream_emits_protocol_violation() {
    let state = GatewayState::default();
    let transition =
        reduce(state, Event::AssignmentCleared { client_stream_id: s("unknown-stream") });
    assert_eq!(transition.effects.len(), 1);
    assert!(violation_mentions(&transition.effects[0], "unknown stream"));
}

#[test]
fn duplicate_worker_registered_emits_protocol_violation() {
    let mut state = GatewayState::default();
    state.available.insert(w("worker-a"), chat_entry(100));
    let transition =
        reduce(state, Event::WorkerRegistered { worker_id: w("worker-a"), capabilities: chat_caps() });
    assert_eq!(
        transition.effects,
        vec![Effect::ProtocolViolation(ProtocolViolation {
            source: ViolationSource::Worker(w("worker-a").to_string()),
            message: String::from("duplicate worker registration"),
        })]
    );
    assert!(transition.state.available.contains_key(&w("worker-a")));
}

#[test]
fn worker_registration_adds_to_available() {
    let state = GatewayState::default();
    let transition =
        reduce(state, Event::WorkerRegistered { worker_id: w("worker-a"), capabilities: chat_caps() });
    assert!(transition.effects.is_empty());
    assert!(transition.state.available.contains_key(&w("worker-a")));
}

#[test]
fn tick_increments_counter() {
    let state = GatewayState::default();
    assert_eq!(state.tick, 0);
    let t1 = reduce(state, Event::Tick);
    assert_eq!(t1.state.tick, 1);
    let t2 = reduce(t1.state, Event::Tick);
    assert_eq!(t2.state.tick, 2);
}

#[test]
fn tick_with_no_entries_emits_no_effects() {
    let transition = reduce(GatewayState::default(), Event::Tick);
    assert!(transition.effects.is_empty());
}

#[test]
fn worker_heartbeat_resets_deadline() {
    let mut state = GatewayState::new(0, 5, 5, 30);
    state.tick = 2;
    state.available.insert(w("worker-a"), chat_entry(5));
    let transition = reduce(state, Event::WorkerHeartbeat { worker_id: w("worker-a") });
    assert!(transition.effects.is_empty());
    assert_eq!(transition.state.available.get(&w("worker-a")).map(|e| e.deadline), Some(7));
}

#[test]
fn worker_heartbeat_unknown_emits_protocol_violation() {
    let transition = reduce(GatewayState::default(), Event::WorkerHeartbeat { worker_id: w("ghost") });
    assert_eq!(transition.effects.len(), 1);
    assert!(violation_mentions(&transition.effects[0], "unknown worker"));
}

#[test]
fn stream_heartbeat_resets_deadline() {
    let mut state = GatewayState::new(0, 5, 10, 30);
    state.tick = 3;
    state.active_streams.insert(s("client-1"), 8);
    let transition = reduce(state, Event::StreamHeartbeat { client_stream_id: s("client-1") });
    assert!(transition.effects.is_empty());
    assert_eq!(transition.state.active_streams.get(&s("client-1")), Some(&13));
}

#[test]
fn stream_heartbeat_unknown_emits_protocol_violation() {
    let transition =
        reduce(GatewayState::default(), Event::StreamHeartbeat { client_stream_id: s("ghost") });
    assert_eq!(transition.effects.len(), 1);
    assert!(violation_mentions(&transition.effects[0], "unknown stream"));
}

#[test]
fn tick_does_not_expire_entries_before_deadline() {
    let mut state = GatewayState::new(0, 5, 5, 30);
    state.available.insert(w("worker-a"), chat_entry(5));
    state.active_streams.insert(s("client-1"), 5);
    let transition = reduce(state, Event::Tick);
    assert!(transition.effects.is_empty());
    assert!(transition.state.available.contains_key(&w("worker-a")));
    assert!(transition.state.active_streams.contains_key(&s("client-1")));
}

#[test]
fn worker_expires_after_ttl_ticks() {
    let mut state = GatewayState::new(0, 3, 30, 30);
    state.available.insert(w("worker-a"), chat_entry(3));
    let state = reduce(state, Event::Tick).state;
    assert!(state.available.contains_key(&w("worker-a")));
    let state = reduce(state, Event::Tick).state;
    assert!(state.available.contains_key(&w("worker-a")));
    let transition = reduce(state, Event::Tick);
    assert!(transition.state.available.is_empty());
    assert!(transition.effects.is_empty());
}

#[test]
fn stream_expires_after_ttl_ticks() {
    let mut state = GatewayState::new(0, 60, 2, 30);
    state.active_streams.insert(s("client-1"), 2);
    let state = reduce(state, Event::Tick).state;
    assert!(state.active_streams.contains_key(&s("client-1")));
    let transition = reduce(state, Event::Tick);
    assert!(transition.state.active_streams.is_empty());
    assert_eq!(transition.effects, error_and_done(s("client-1"), "stream timed out"));
}

#[test]
fn heartbeat_prevents_expiration() {
    let mut state = GatewayState::new(0, 2, 2, 30);
    state.available.insert(w("worker-a"), chat_entry(2));
    state.active_streams.insert(s("client-1"), 2);
    let state = reduce(state, Event::Tick).state;
    let state = reduce(state, Event::WorkerHeartbeat { worker_id: w("worker-a") }).state;
    let state = reduce(state, Event::StreamHeartbeat { client_stream_id: s("client-1") }).state;
    let transition = reduce(state, Event::Tick);
    assert!(transition.state.available.contains_key(&w("worker-a")));
    assert!(transition.state.active_streams.contains_key(&s("client-1")));
    assert!(transition.effects.is_empty());
    let transition = reduce(transition.state, Event::Tick);
    assert!(transition.state.available.is_empty());
    assert!(transition.state.active_streams.is_empty());
}

#[test]
fn multiple_expirations_in_single_tick() {
    let mut state = GatewayState::new(0, 1, 1, 30);
    state.available.insert(w("worker-a"), chat_entry(1));
    state.available.insert(w("worker-b"), chat_entry(1));
    state.active_streams.insert(s("client-1"), 1);
    state.active_streams.insert(s("client-2"), 1);
    let transition = reduce(state, Event::Tick);
    assert!(transition.state.available.is_empty());
    assert!(transition.state.active_streams.is_empty());
    assert_eq!(transition.effects.len(), 4);
    let error_streams: Vec<u64> = transition
        .effects
        .iter()
        .filter_map(|e| match e {
            Effect::SendClientError(e) => Some(e.client_stream_id),
            _ => None,
        })
        .collect();
    assert!(error_streams.contains(&s("client-1")));
    assert!(error_streams.contains(&s("client-2")));
}

#[test]
fn assignment_cleared_before_timeout_no_timeout_effects() {
    let mut state = GatewayState::new(0, 60, 3, 30);
    state.available.insert(w("worker-a"), chat_entry(100));
    let state = reduce(state, chat_request(s("client-1"), true)).state;
    let state = reduce(state, Event::AssignmentCleared { client_stream_id: s("client-1") }).state;
    let state = reduce(state, Event::Tick).state;
    let state = reduce(state, Event::Tick).state;
    let transition = reduce(state, Event::Tick);
    assert!(transition.effects.is_empty());
    assert!(transition.state.active_streams.is_empty());
}

#[test]
fn assignment_cleared_after_timeout_emits_protocol_violation() {
    let mut state = GatewayState::new(0, 60, 1, 30);
    state.active_streams.insert(s("client-1"), 1);
    let state = reduce(state, Event::Tick).state;
    assert!(state.active_streams.is_empty());
    let transition = reduce(state, Event::AssignmentCleared { client_stream_id: s("client-1") });
    assert_eq!(transition.effects.len(), 1);
    assert!(violation_mentions(&transition.effects[0], "unknown stream"));
}

#[test]
fn assignment_failed_emits_error_and_done() {
    let mut state = GatewayState::default();
    state.available.insert(w("worker-a"), chat_entry(100));
    let state = reduce(state, chat_request(s("client-1"), true)).state;
    let transition = reduce(
        state,
        Event::AssignmentFailed {
            client_stream_id: s("client-1"),
            message: String::from("worker channel closed"),
        },
    );
    assert_eq!(transition.effects, error_and_done(s("client-1"), "worker channel closed"));
    assert!(transition.state.active_streams.is_empty());
}

#[test]
fn assignment_failed_unknown_stream_emits_protocol_violation() {
    let transition = reduce(
        GatewayState::default(),
        Event::AssignmentFailed {
            client_stream_id: s("unknown-stream"),
            message: String::from("some error"),
        },
    );
    assert_eq!(transition.effects.len(), 1);
    assert!(violation_mentions(&transition.effects[0], "unknown stream"));
}

#[test]
fn double_assignment_failed_second_emits_protocol_violation() {
    let mut state = GatewayState::default();
    state.available.insert(w("worker-a"), chat_entry(100));
    let state = reduce(state, chat_request(s("client-1"), true)).state;
    let first = reduce(
        state,
        Event::AssignmentFailed {
            client_stream_id: s("client-1"),
            message: String::from("worker crashed"),
        },
    );
    assert_eq!(first.effects.len(), 2);
    let second = reduce(
        first.state,
        Event::AssignmentFailed {
            client_stream_id: s("client-1"),
            message: String::from("late failure"),
        },
    );
    assert_eq!(second.effects.len(), 1);
    assert!(violation_mentions(&second.effects[0], "unknown stream"));
}

#[test]
fn assignment_failed_before_timeout_no_timeout_effects() {
    let mut state = GatewayState::new(0, 60, 3, 30);
    state.available.insert(w("worker-a"), chat_entry(100));
    let state = reduce(state, chat_request(s("client-1"), true)).state;
    let state = reduce(
        state,
        Event::AssignmentFailed {
            client_stream_id: s("client-1"),
            message: String::from("dispatch failed"),
        },
    )
    .state;
    let state = reduce(state, Event::Tick).state;
    let state = reduce(state, Event::Tick).state;
    let transition = reduce(state, Event::Tick);
    assert!(transition.effects.is_empty());
    assert!(transition.state.active_streams.is_empty());
}

fn state_with_worker_at_tick_five() -> GatewayState {
    let mut state = GatewayState::default();
    state.available.insert(w("worker-a"), chat_entry(100));
    state.tick = 5;
    state
}

#[test]
fn stream_false_does_not_mutate_state() {
    let state = state_with_worker_at_tick_five();
    let state_before = state_with_worker_at_tick_five();
    let transition = reduce(state, chat_request(s("client-1"), false));
    assert_eq!(transition.state, state_before);
}

#[test]
fn stream_true_no_workers_does_not_mutate_state() {
    let state = GatewayState::default();
    let state_before = GatewayState::default();
    let transition = reduce(state, chat_request(s("client-1"), true));
    assert_eq!(transition.state, state_before);
}

#[test]
fn multiple_distinct_registrations_all_succeed() {
    let state = GatewayState::default();
    let state =
        reduce(state, Event::WorkerRegistered { worker_id: w("worker-a"), capabilities: chat_caps() })
            .state;
    let state =
        reduce(state, Event::WorkerRegistered { worker_id: w("worker-b"), capabilities: chat_caps() })
            .state;
    let state =
        reduce(state, Event::WorkerRegistered { worker_id: w("worker-c"), capabilities: chat_caps() })
            .state;
    assert_eq!(state.available.len(), 3);
    assert!(state.available.contains_key(&w("worker-a")));
    assert!(state.available.contains_key(&w("worker-b")));
    assert!(state.available.contains_key(&w("worker-c")));
}

#[test]
fn double_assignment_cleared_second_emits_protocol_violation() {
    let mut state = GatewayState::default();
    state.available.insert(w("worker-a"), chat_entry(100));
    let state = reduce(state, chat_request(s("client-1"), true)).state;
    let first = reduce(state, Event::AssignmentCleared { client_stream_id: s("client-1") });
    assert!(matches!(first.effects.as_slice(), [Effect::SendClientDone(_)]));
    let second = reduce(first.state, Event::AssignmentCleared { client_stream_id: s("client-1") });
    assert_eq!(second.effects.len(), 1);
    assert!(violation_mentions(&second.effects[0], "unknown stream"));
}

#[test]
fn duplicate_stream_id_rejected_with_error_and_done() {
    let mut state = GatewayState::default();
    state.available.insert(w("worker-a"), chat_entry(100));
    state.available.insert(w("worker-b"), chat_entry(100));
    let state = reduce(state, chat_request(s("client-1"), true)).state;
    assert!(state.active_streams.contains_key(&s("client-1")));
    let transition = reduce(state, chat_request(s("client-1"), true));
    assert_eq!(
        transition.effects,
        error_and_done(s("client-1"), "stream already has an active assignment")
    );
    assert!(transition.state.available.contains_key(&w("worker-b")));
    assert!(transition.state.active_streams.contains_key(&s("client-1")));
}

#[test]
fn heartbeat_for_dispatched_worker_emits_protocol_violation() {
    let mut state = GatewayState::default();
    state.available.insert(w("worker-a"), chat_entry(100));
    let state = reduce(state, chat_request(s("client-1"), true)).state;
    let transition = reduce(state, Event::WorkerHeartbeat { worker_id: w("worker-a") });
    assert_eq!(transition.effects.len(), 1);
    assert!(violation_mentions(&transition.effects[0], "unknown worker"));
}

#[test]
fn heartbeat_for_cleared_stream_emits_protocol_violation() {
    let mut state = GatewayState::default();
    state.available.insert(w("worker-a"), chat_entry(100));
    let state = reduce(state, chat_request(s("client-1"), true)).state;
    let state = reduce(state, Event::AssignmentCleared { client_stream_id: s("client-1") }).state;
    let transition = reduce(state, Event::StreamHeartbeat { client_stream_id: s("client-1") });
    assert_eq!(transition.effects.len(), 1);
    assert!(violation_mentions(&transition.effects[0], "unknown stream"));
}

#[test]
fn mixed_deadlines_only_expired_entries_removed() {
    let mut state = GatewayState::new(0, 60, 60, 30);
    state.available.insert(w("worker-stale"), chat_entry(2));
    state.available.insert(w("worker-fresh"), chat_entry(10));
    state.active_streams.insert(s("stream-stale"), 2);
    state.active_streams.insert(s("stream-fresh"), 10);
    let state = reduce(state, Event::Tick).state;
    let transition = reduce(state, Event::Tick);
    assert!(!transition.state.available.contains_key(&w("worker-stale")));
    assert!(transition.state.available.contains_key(&w("worker-fresh")));
    assert!(!transition.state.active_streams.contains_key(&s("stream-stale")));
    assert!(transition.state.active_streams.contains_key(&s("stream-fresh")));
    assert_eq!(transition.effects.len(), 2);
    assert!(matches!(
        &transition.effects[0],
        Effect::SendClientError(e) if e.client_stream_id == s("stream-stale")
    ));
}

#[test]
fn worker_expiration_does_not_affect_active_streams() {
    let mut state = GatewayState::new(0, 1, 60, 30);
    state.available.insert(w("worker-a"), chat_entry(1));
    state.active_streams.insert(s("client-1"), 100);
    let transition = reduce(state, Event::Tick);
    assert!(transition.state.available.is_empty());
    assert!(transition.state.active_streams.contains_key(&s("client-1")));
    assert!(transition.effects.is_empty());
}

#[test]
fn stream_expiration_does_not_affect_available_workers() {
    let mut state = GatewayState::new(0, 60, 1, 30);
    state.available.insert(w("worker-a"), chat_entry(100));
    state.active_streams.insert(s("client-1"), 1);
    let transition = reduce(state, Event::Tick);
    assert!(transition.state.available.contains_key(&w("worker-a")));
    assert!(transition.state.active_streams.is_empty());
    assert_eq!(transition.effects.len(), 2);
}

#[test]
fn zero_ttl_expires_on_next_tick() {
    let state = GatewayState::new(0, 0, 0, 30);
    let state =
        reduce(state, Event::WorkerRegistered { worker_id: w("worker-a"), capabilities: chat_caps() })
            .state;
    assert_eq!(state.available.get(&w("worker-a")).map(|e| e.deadline), Some(0));
    let transition = reduce(state, Event::Tick);
    assert!(transition.state.available.is_empty());
}

#[test]
fn tick_preserves_ttl_config() {
    let transition = reduce(GatewayState::new(0, 42, 17, 30), Event::Tick);
    assert_eq!(transition.state.worker_ttl, 42);
    assert_eq!(transition.state.stream_ttl, 17);
}

#[test]
fn chat_job_dispatches_to_chat_capable_worker() {
    let mut state = GatewayState::default();
    state.available.insert(w("worker-a"), chat_entry(100));
    let transition = reduce(state, chat_request(s("client-1"), true));
    assert_eq!(transition.effects.len(), 1);
    assert_eq!(dispatched_to(&transition.effects[0]), Some(w("worker-a")));
}

#[test]
fn chat_job_skips_transcription_only_worker() {
    let mut state = GatewayState::default();
    state
        .available
        .insert(w("worker-a"), WorkerEntry { deadline: 100, capabilities: transcription_caps() });
    let transition = reduce(state, chat_request(s("client-1"), true));
    assert_eq!(transition.effects, error_and_done(s("client-1"), "no idle worker available"));
    assert!(transition.state.available.contains_key(&w("worker-a")));
}

#[test]
fn transcription_job_dispatches_to_transcription_capable_worker() {
    let mut state = GatewayState::default();
    state
        .available
        .insert(w("worker-a"), WorkerEntry { deadline: 100, capabilities: transcription_caps() });
    let transition = reduce(state, transcription_request(s("client-1")));
    assert_eq!(transition.effects.len(), 1);
    assert_eq!(dispatched_to(&transition.effects[0]), Some(w("worker-a")));
}

#[test]
fn multi_capable_worker_serves_either_job_type() {
    let mut state = GatewayState::default();
    state.available.insert(w("worker-a"), WorkerEntry { deadline: 100, capabilities: both_caps() });
    let transition = reduce(state, chat_request(s("client-1"), true));
    assert_eq!(transition.effects.len(), 1);
    assert_eq!(dispatched_to(&transition.effects[0]), Some(w("worker-a")));
    let state =
        reduce(transition.state, Event::AssignmentCleared { client_stream_id: s("client-1") }).state;
    let state =
        reduce(state, Event::WorkerRegistered { worker_id: w("worker-b"), capabilities: both_caps() })
            .state;
    let transition = reduce(state, transcription_request(s("client-2")));
    assert_eq!(transition.effects.len(), 1);
    assert_eq!(dispatched_to(&transition.effects[0]), Some(w("worker-b")));
}

#[test]
fn selects_capable_worker_when_mixed_pool() {
    let mut state = GatewayState::default();
    state.available.insert(w("worker-a"), chat_entry(100));
    state
        .available
        .insert(w("worker-b"), WorkerEntry { deadline: 100, capabilities: transcription_caps() });
    let transition = reduce(state, transcription_request(s("client-1")));
    assert_eq!(transition.effects.len(), 1);
    assert_eq!(dispatched_to(&transition.effects[0]), Some(w("worker-b")));
    assert!(transition.state.available.contains_key(&w("worker-a")));
}

#[test]
fn no_capable_worker_available_returns_error() {
    let mut state = GatewayState::default();
    state.available.insert(w("worker-a"), chat_entry(100));
    state.available.insert(w("worker-b"), chat_entry(100));
    let transition = reduce(state, transcription_request(s("client-1")));
    assert_eq!(transition.effects, error_and_done(s("client-1"), "no idle worker available"));
    assert_eq!(transition.state.available.len(), 2);
}

#[test]
fn registration_stores_capabilities() {
    let transition = reduce(
        GatewayState::default(),
        Event::WorkerRegistered { worker_id: w("worker-a"), capabilities: both_caps() },
    );
    let entry = transition.state.available.get(&w("worker-a")).unwrap();
    assert_eq!(entry.capabilities, both_caps());
}
